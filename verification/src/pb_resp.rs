//! Protobuf messages of API v1 responses.

use vstd::prelude::*;
use vstd::utf8::*;
use crate::wire::{
    decode_into, decode_message, encode_fields, fields_wf, lemma_decode_encode_fields,
    lemma_chain, lemma_encode_fields_append, lemma_fields_wf_append, lemma_merge_fields_append, merge_fields,
    Message, RawField, SpecField, WireMessage, MAX_FIELD_NUMBER,
};
use crate::codec::{
    append_all, lemma_encode_empty, as_bytes, as_i64s, as_string, as_varint, extend_i64, fits, i64s_as_u64s,
    lemma_fits_one, lemma_fits_parts, lemma_fits_seg_bytes, lemma_fits_seg_packed, lemma_fits_seg_rep,
    lemma_fits_seg_str, lemma_i64s_round, lemma_merge_one, lemma_rep_empty, lemma_rep_split, lemma_rep_wf,
    lemma_seg_empty, lemma_seg_len, lemma_seg_opt_u64, lemma_seg_rep_full, lemma_seg_u64, opt_string_view,
    lemma_zero_i32, lemma_zero_i64, lfield, merge_nested, opt_u64_seg, packed_bytes, put_bool,
    put_bytes, put_i32, put_i64, put_msg, put_opt_str, put_opt_u64, put_packed_i64, put_rep_item,
    put_rep_str, put_str, put_u32, put_u64, raw_bytes, raw_i64s, raw_nested, raw_string,
    raw_varint, seg_bool, seg_bytes, seg_i32, seg_i64, seg_msg, seg_opt_str, seg_packed_i64,
    seg_rep, seg_str, seg_u32, seg_u64, strings_view, utf8_all,
};

verus! {

broadcast use vstd::utf8::group_utf8_lib;

use crate::pb_card::{ApiError, CardSource, FlowCardInfo, FlowCardPageResponse, ReviewAndAdvanceResponse, SpecApiError, SpecCardSource, SpecFlowCardInfo, SpecFlowCardPageResponse, SpecReviewAndAdvanceResponse, SpecTipInfo, SpecTipcardDetailResponse, SpecTipcardImageInfo, SpecTipcardListItem, SpecTipcardListResponse, SpecTipsResponse, TipInfo, TipcardDetailResponse, TipcardImageInfo, TipcardListItem, TipcardListResponse, TipsResponse, lemma_round_api_error, lemma_round_card_source, lemma_round_flow_card_info, lemma_round_flow_card_page_response, lemma_round_review_and_advance_response, lemma_round_tip_info, lemma_round_tipcard_detail_response, lemma_round_tipcard_image_info, lemma_round_tipcard_list_item, lemma_round_tipcard_list_response, lemma_round_tips_response, lemma_wf_api_error, lemma_wf_card_source, lemma_wf_flow_card_info, lemma_wf_flow_card_page_response, lemma_wf_review_and_advance_response, lemma_wf_tip_info, lemma_wf_tipcard_detail_response, lemma_wf_tipcard_image_info, lemma_wf_tipcard_list_item, lemma_wf_tipcard_list_response, lemma_wf_tips_response};
use crate::pb_req::{Empty, SpecEmpty, lemma_round_empty, lemma_wf_empty};
/// The result an [`ApiResponse`] carries.
#[derive(Clone, Debug, PartialEq)]
pub enum ResponseResult {
    Done(Empty),
    FlowCardPage(FlowCardPageResponse),
    TipcardDetail(TipcardDetailResponse),
    Tips(TipsResponse),
    ReviewAndAdvance(ReviewAndAdvanceResponse),
    ContinueDailyReview(ContinueDailyReviewResponse),
    Tipcards(TipcardListResponse),
    ForceDailyRefresh(ForceDailyRefreshResponse),
    Settings(SettingsResponse),
    ApiInfo(ApiInfoResponse),
    VisionModelTest(VisionModelTestResponse),
    ApiKeys(ApiKeyListResponse),
    ApiKeyCreated(ApiKeyCreatedResponse),
    Summary(SummaryResponse),
    AppTopics(AppTopicListResponse),
    Documents(DocumentListResponse),
    DocumentDetail(DocumentDetailResponse),
    DocumentCreated(DocumentDetailResponse),
    ExploredLinks(ExploredLinksResponse),
    PoolImages(PoolImageListResponse),
    PoolImageCreated(PoolImageCreatedResponse),
}

pub enum SpecResponseResult {
    Done(SpecEmpty),
    FlowCardPage(SpecFlowCardPageResponse),
    TipcardDetail(SpecTipcardDetailResponse),
    Tips(SpecTipsResponse),
    ReviewAndAdvance(SpecReviewAndAdvanceResponse),
    ContinueDailyReview(SpecContinueDailyReviewResponse),
    Tipcards(SpecTipcardListResponse),
    ForceDailyRefresh(SpecForceDailyRefreshResponse),
    Settings(SpecSettingsResponse),
    ApiInfo(SpecApiInfoResponse),
    VisionModelTest(SpecVisionModelTestResponse),
    ApiKeys(SpecApiKeyListResponse),
    ApiKeyCreated(SpecApiKeyCreatedResponse),
    Summary(SpecSummaryResponse),
    AppTopics(SpecAppTopicListResponse),
    Documents(SpecDocumentListResponse),
    DocumentDetail(SpecDocumentDetailResponse),
    DocumentCreated(SpecDocumentDetailResponse),
    ExploredLinks(SpecExploredLinksResponse),
    PoolImages(SpecPoolImageListResponse),
    PoolImageCreated(SpecPoolImageCreatedResponse),
}

impl View for ResponseResult {
    type V = SpecResponseResult;

    open spec fn view(&self) -> SpecResponseResult {
        match self {
            ResponseResult::Done(c) => SpecResponseResult::Done(c@),
            ResponseResult::FlowCardPage(c) => SpecResponseResult::FlowCardPage(c@),
            ResponseResult::TipcardDetail(c) => SpecResponseResult::TipcardDetail(c@),
            ResponseResult::Tips(c) => SpecResponseResult::Tips(c@),
            ResponseResult::ReviewAndAdvance(c) => SpecResponseResult::ReviewAndAdvance(c@),
            ResponseResult::ContinueDailyReview(c) => SpecResponseResult::ContinueDailyReview(c@),
            ResponseResult::Tipcards(c) => SpecResponseResult::Tipcards(c@),
            ResponseResult::ForceDailyRefresh(c) => SpecResponseResult::ForceDailyRefresh(c@),
            ResponseResult::Settings(c) => SpecResponseResult::Settings(c@),
            ResponseResult::ApiInfo(c) => SpecResponseResult::ApiInfo(c@),
            ResponseResult::VisionModelTest(c) => SpecResponseResult::VisionModelTest(c@),
            ResponseResult::ApiKeys(c) => SpecResponseResult::ApiKeys(c@),
            ResponseResult::ApiKeyCreated(c) => SpecResponseResult::ApiKeyCreated(c@),
            ResponseResult::Summary(c) => SpecResponseResult::Summary(c@),
            ResponseResult::AppTopics(c) => SpecResponseResult::AppTopics(c@),
            ResponseResult::Documents(c) => SpecResponseResult::Documents(c@),
            ResponseResult::DocumentDetail(c) => SpecResponseResult::DocumentDetail(c@),
            ResponseResult::DocumentCreated(c) => SpecResponseResult::DocumentCreated(c@),
            ResponseResult::ExploredLinks(c) => SpecResponseResult::ExploredLinks(c@),
            ResponseResult::PoolImages(c) => SpecResponseResult::PoolImages(c@),
            ResponseResult::PoolImageCreated(c) => SpecResponseResult::PoolImageCreated(c@),
        }
    }
}

impl SpecResponseResult {
    /// The one field written for a present choice.
    pub open spec fn fields_of(o: Option<SpecResponseResult>) -> Seq<SpecField> {
        match o {
            Some(SpecResponseResult::Done(c)) => seq![lfield(1, c.encoded())],
            Some(SpecResponseResult::FlowCardPage(c)) => seq![lfield(2, c.encoded())],
            Some(SpecResponseResult::TipcardDetail(c)) => seq![lfield(3, c.encoded())],
            Some(SpecResponseResult::Tips(c)) => seq![lfield(4, c.encoded())],
            Some(SpecResponseResult::ReviewAndAdvance(c)) => seq![lfield(5, c.encoded())],
            Some(SpecResponseResult::ContinueDailyReview(c)) => seq![lfield(6, c.encoded())],
            Some(SpecResponseResult::Tipcards(c)) => seq![lfield(7, c.encoded())],
            Some(SpecResponseResult::ForceDailyRefresh(c)) => seq![lfield(8, c.encoded())],
            Some(SpecResponseResult::Settings(c)) => seq![lfield(9, c.encoded())],
            Some(SpecResponseResult::ApiInfo(c)) => seq![lfield(10, c.encoded())],
            Some(SpecResponseResult::VisionModelTest(c)) => seq![lfield(11, c.encoded())],
            Some(SpecResponseResult::ApiKeys(c)) => seq![lfield(12, c.encoded())],
            Some(SpecResponseResult::ApiKeyCreated(c)) => seq![lfield(13, c.encoded())],
            Some(SpecResponseResult::Summary(c)) => seq![lfield(14, c.encoded())],
            Some(SpecResponseResult::AppTopics(c)) => seq![lfield(15, c.encoded())],
            Some(SpecResponseResult::Documents(c)) => seq![lfield(16, c.encoded())],
            Some(SpecResponseResult::DocumentDetail(c)) => seq![lfield(17, c.encoded())],
            Some(SpecResponseResult::DocumentCreated(c)) => seq![lfield(18, c.encoded())],
            Some(SpecResponseResult::ExploredLinks(c)) => seq![lfield(19, c.encoded())],
            Some(SpecResponseResult::PoolImages(c)) => seq![lfield(20, c.encoded())],
            Some(SpecResponseResult::PoolImageCreated(c)) => seq![lfield(21, c.encoded())],
            None => Seq::empty(),
        }
    }

    #[verifier::opaque]
    pub open spec fn wf_of(o: Option<SpecResponseResult>) -> bool {
        match o {
            Some(SpecResponseResult::Done(c)) => c.wf() && fits(c.encoded()),
            Some(SpecResponseResult::FlowCardPage(c)) => c.wf() && fits(c.encoded()),
            Some(SpecResponseResult::TipcardDetail(c)) => c.wf() && fits(c.encoded()),
            Some(SpecResponseResult::Tips(c)) => c.wf() && fits(c.encoded()),
            Some(SpecResponseResult::ReviewAndAdvance(c)) => c.wf() && fits(c.encoded()),
            Some(SpecResponseResult::ContinueDailyReview(c)) => c.wf() && fits(c.encoded()),
            Some(SpecResponseResult::Tipcards(c)) => c.wf() && fits(c.encoded()),
            Some(SpecResponseResult::ForceDailyRefresh(c)) => c.wf() && fits(c.encoded()),
            Some(SpecResponseResult::Settings(c)) => c.wf() && fits(c.encoded()),
            Some(SpecResponseResult::ApiInfo(c)) => c.wf() && fits(c.encoded()),
            Some(SpecResponseResult::VisionModelTest(c)) => c.wf() && fits(c.encoded()),
            Some(SpecResponseResult::ApiKeys(c)) => c.wf() && fits(c.encoded()),
            Some(SpecResponseResult::ApiKeyCreated(c)) => c.wf() && fits(c.encoded()),
            Some(SpecResponseResult::Summary(c)) => c.wf() && fits(c.encoded()),
            Some(SpecResponseResult::AppTopics(c)) => c.wf() && fits(c.encoded()),
            Some(SpecResponseResult::Documents(c)) => c.wf() && fits(c.encoded()),
            Some(SpecResponseResult::DocumentDetail(c)) => c.wf() && fits(c.encoded()),
            Some(SpecResponseResult::DocumentCreated(c)) => c.wf() && fits(c.encoded()),
            Some(SpecResponseResult::ExploredLinks(c)) => c.wf() && fits(c.encoded()),
            Some(SpecResponseResult::PoolImages(c)) => c.wf() && fits(c.encoded()),
            Some(SpecResponseResult::PoolImageCreated(c)) => c.wf() && fits(c.encoded()),
            None => true,
        }
    }
}

impl ResponseResult {
    /// Appends the field of a present choice.
    pub fn put_oneof(out: &mut Vec<u8>, o: &Option<ResponseResult>)
        ensures
            final(out)@ == old(out)@ + encode_fields(SpecResponseResult::fields_of(match o { Some(c) => Some(c@), None => None })),
    {
        match o {
            Some(ResponseResult::Done(c)) => {
                let b = c.encode_to_vec();
                put_msg(out, 1, b.as_slice());
            },
            Some(ResponseResult::FlowCardPage(c)) => {
                let b = c.encode_to_vec();
                put_msg(out, 2, b.as_slice());
            },
            Some(ResponseResult::TipcardDetail(c)) => {
                let b = c.encode_to_vec();
                put_msg(out, 3, b.as_slice());
            },
            Some(ResponseResult::Tips(c)) => {
                let b = c.encode_to_vec();
                put_msg(out, 4, b.as_slice());
            },
            Some(ResponseResult::ReviewAndAdvance(c)) => {
                let b = c.encode_to_vec();
                put_msg(out, 5, b.as_slice());
            },
            Some(ResponseResult::ContinueDailyReview(c)) => {
                let b = c.encode_to_vec();
                put_msg(out, 6, b.as_slice());
            },
            Some(ResponseResult::Tipcards(c)) => {
                let b = c.encode_to_vec();
                put_msg(out, 7, b.as_slice());
            },
            Some(ResponseResult::ForceDailyRefresh(c)) => {
                let b = c.encode_to_vec();
                put_msg(out, 8, b.as_slice());
            },
            Some(ResponseResult::Settings(c)) => {
                let b = c.encode_to_vec();
                put_msg(out, 9, b.as_slice());
            },
            Some(ResponseResult::ApiInfo(c)) => {
                let b = c.encode_to_vec();
                put_msg(out, 10, b.as_slice());
            },
            Some(ResponseResult::VisionModelTest(c)) => {
                let b = c.encode_to_vec();
                put_msg(out, 11, b.as_slice());
            },
            Some(ResponseResult::ApiKeys(c)) => {
                let b = c.encode_to_vec();
                put_msg(out, 12, b.as_slice());
            },
            Some(ResponseResult::ApiKeyCreated(c)) => {
                let b = c.encode_to_vec();
                put_msg(out, 13, b.as_slice());
            },
            Some(ResponseResult::Summary(c)) => {
                let b = c.encode_to_vec();
                put_msg(out, 14, b.as_slice());
            },
            Some(ResponseResult::AppTopics(c)) => {
                let b = c.encode_to_vec();
                put_msg(out, 15, b.as_slice());
            },
            Some(ResponseResult::Documents(c)) => {
                let b = c.encode_to_vec();
                put_msg(out, 16, b.as_slice());
            },
            Some(ResponseResult::DocumentDetail(c)) => {
                let b = c.encode_to_vec();
                put_msg(out, 17, b.as_slice());
            },
            Some(ResponseResult::DocumentCreated(c)) => {
                let b = c.encode_to_vec();
                put_msg(out, 18, b.as_slice());
            },
            Some(ResponseResult::ExploredLinks(c)) => {
                let b = c.encode_to_vec();
                put_msg(out, 19, b.as_slice());
            },
            Some(ResponseResult::PoolImages(c)) => {
                let b = c.encode_to_vec();
                put_msg(out, 20, b.as_slice());
            },
            Some(ResponseResult::PoolImageCreated(c)) => {
                let b = c.encode_to_vec();
                put_msg(out, 21, b.as_slice());
            },
            None => {
                proof {
                    lemma_encode_empty();
                }
                assert(out@ =~= old(out)@ + encode_fields(Seq::<SpecField>::empty()));
            },
        }
    }
}

/// How an [`ApiV1Response`] ended.
#[derive(Clone, Debug, PartialEq)]
pub enum Outcome {
    Success(ApiResponse),
    Error(ApiError),
}

pub enum SpecOutcome {
    Success(SpecApiResponse),
    Error(SpecApiError),
}

impl View for Outcome {
    type V = SpecOutcome;

    open spec fn view(&self) -> SpecOutcome {
        match self {
            Outcome::Success(c) => SpecOutcome::Success(c@),
            Outcome::Error(c) => SpecOutcome::Error(c@),
        }
    }
}

impl SpecOutcome {
    /// The one field written for a present choice.
    pub open spec fn fields_of(o: Option<SpecOutcome>) -> Seq<SpecField> {
        match o {
            Some(SpecOutcome::Success(c)) => seq![lfield(2, c.encoded())],
            Some(SpecOutcome::Error(c)) => seq![lfield(3, c.encoded())],
            None => Seq::empty(),
        }
    }

    #[verifier::opaque]
    pub open spec fn wf_of(o: Option<SpecOutcome>) -> bool {
        match o {
            Some(SpecOutcome::Success(c)) => c.wf() && fits(c.encoded()),
            Some(SpecOutcome::Error(c)) => c.wf() && fits(c.encoded()),
            None => true,
        }
    }
}

impl Outcome {
    /// Appends the field of a present choice.
    pub fn put_oneof(out: &mut Vec<u8>, o: &Option<Outcome>)
        ensures
            final(out)@ == old(out)@ + encode_fields(SpecOutcome::fields_of(match o { Some(c) => Some(c@), None => None })),
    {
        match o {
            Some(Outcome::Success(c)) => {
                let b = c.encode_to_vec();
                put_msg(out, 2, b.as_slice());
            },
            Some(Outcome::Error(c)) => {
                let b = c.encode_to_vec();
                put_msg(out, 3, b.as_slice());
            },
            None => {
                proof {
                    lemma_encode_empty();
                }
                assert(out@ =~= old(out)@ + encode_fields(Seq::<SpecField>::empty()));
            },
        }
    }
}

/// How many cards are available now.
#[derive(Clone, Debug, PartialEq, Default)]
pub struct ContinueDailyReviewResponse {
    pub available_cards: u64,
}

/// The value of a [`ContinueDailyReviewResponse`].
pub struct SpecContinueDailyReviewResponse {
    pub available_cards: u64,
}

impl View for ContinueDailyReviewResponse {
    type V = SpecContinueDailyReviewResponse;

    open spec fn view(&self) -> SpecContinueDailyReviewResponse {
        SpecContinueDailyReviewResponse {
            available_cards: self.available_cards,
        }
    }
}

impl SpecContinueDailyReviewResponse {
    /// Every field at its default.
    pub open spec fn empty() -> SpecContinueDailyReviewResponse {
        SpecContinueDailyReviewResponse {
            available_cards: 0u64,
        }
    }

    /// The fields written for this value, in field-number order.
    #[verifier::opaque]
    pub open spec fn fields(self) -> Seq<SpecField> {
        seg_u64(1, self.available_cards)
    }

    pub open spec fn encoded(self) -> Seq<u8> {
        encode_fields(self.fields())
    }

    pub open spec fn encode_all(v: Seq<SpecContinueDailyReviewResponse>) -> Seq<Seq<u8>> {
        Seq::new(v.len(), |i: int| v[i].encoded())
    }

    /// Every length-delimited payload fits a varint length.
    #[verifier::opaque]
    pub open spec fn wf(self) -> bool {
        true
    }
}

impl Message for SpecContinueDailyReviewResponse {
    open spec fn merge(self, f: SpecField) -> Option<SpecContinueDailyReviewResponse> {
        if f.number == 1 {
            match as_varint(f.value) { Some(v) => Some(SpecContinueDailyReviewResponse { available_cards: v, ..self }), None => None }
        } else {
            Some(self)
        }
    }
}

impl WireMessage for ContinueDailyReviewResponse {
    type Spec = SpecContinueDailyReviewResponse;

    open spec fn spec_of(&self) -> SpecContinueDailyReviewResponse {
        self@
    }

    open spec fn spec_default() -> SpecContinueDailyReviewResponse {
        SpecContinueDailyReviewResponse::empty()
    }

    fn default_value() -> (r: Self) {
        let r = ContinueDailyReviewResponse {
            available_cards: 0,
        };
        r
    }

    fn merge_raw(&mut self, buf: &[u8], f: &RawField) -> (ok: bool) {
        if f.number == 1 {
            match raw_varint(f) { Some(v) => { self.available_cards = v; true }, None => false }
        } else {
            true
        }
    }
}

impl ContinueDailyReviewResponse {
    /// Appends the protobuf encoding of this message.
    pub fn encode_to(&self, out: &mut Vec<u8>)
        ensures
            final(out)@ == old(out)@ + self@.encoded(),
    {
        let ghost start = out@;
        proof {
            reveal(SpecContinueDailyReviewResponse::fields);
        }
        let ghost s0 = seg_u64(1, self@.available_cards);
        put_u64(out, 1, self.available_cards);
        let ghost p0 = s0;
        assert(out@ =~= start + encode_fields(p0));
        assert(out@ =~= start + self@.encoded());
    }

    /// The protobuf encoding of this message.
    pub fn encode_to_vec(&self) -> (r: Vec<u8>)
        ensures
            r@ == self@.encoded(),
    {
        let mut out: Vec<u8> = Vec::new();
        self.encode_to(&mut out);
        assert(out@ =~= self@.encoded());
        out
    }

    /// Decodes a message; `None` where the bytes are not a valid encoding.
    pub fn decode(buf: &[u8]) -> (r: Option<ContinueDailyReviewResponse>)
        ensures
            match decode_into(buf@, SpecContinueDailyReviewResponse::empty()) {
                Some(m) => r matches Some(v) && v@ == m,
                None => r is None,
            },
    {
        decode_message::<ContinueDailyReviewResponse>(buf)
    }

    /// Appends one length-delimited field `n` per element of `v`.
    pub fn put_repeated(out: &mut Vec<u8>, n: u32, v: &Vec<ContinueDailyReviewResponse>)
        requires
            1 <= n <= MAX_FIELD_NUMBER,
        ensures
            final(out)@ == old(out)@ + encode_fields(seg_rep(n, SpecContinueDailyReviewResponse::encode_all(Seq::new(v@.len(), |i: int| v@[i]@)))),
    {
        let ghost all = SpecContinueDailyReviewResponse::encode_all(Seq::new(v@.len(), |i: int| v@[i]@));
        let mut part: Vec<u8> = Vec::new();
        let mut i: usize = 0;
        proof {
            lemma_seg_rep_full(n, all);
            lemma_encode_empty();
        }
        while i < v.len()
            invariant
                1 <= n <= MAX_FIELD_NUMBER,
                i <= v@.len(),
                all == SpecContinueDailyReviewResponse::encode_all(Seq::new(v@.len(), |i: int| v@[i]@)),
                part@ == encode_fields(seg_rep(n, all.take(i as int))),
            decreases v@.len() - i,
        {
            let b = v[i].encode_to_vec();
            proof {
                assert(all.take(i as int).push(b@) =~= all.take(i + 1));
            }
            put_rep_item(&mut part, n, b.as_slice(), Ghost(all.take(i as int)));
            i = i + 1;
        }
        proof {
            lemma_seg_rep_full(n, all);
        }
        append_all(out, &part);
    }
}

/// Decoding the fields of a well-formed `ContinueDailyReviewResponse` gives it back.
pub proof fn lemma_round_continue_daily_review_response(m: SpecContinueDailyReviewResponse)
    requires
        m.wf(),
    ensures
        merge_fields(m.fields(), SpecContinueDailyReviewResponse::empty()) == Some(m),
        fields_wf(m.fields()),
{
    reveal(SpecContinueDailyReviewResponse::fields);
    reveal(SpecContinueDailyReviewResponse::wf);
    let x0 = SpecContinueDailyReviewResponse::empty();
    let x1 = SpecContinueDailyReviewResponse { available_cards: m.available_cards };
    let s0 = seg_u64(1, m.available_cards);
    assert(merge_fields(s0, x0) == Some(x1) && fields_wf(s0)) by {
        lemma_seg_u64::<SpecContinueDailyReviewResponse>(1, m.available_cards, x0);
    }
    let p0 = s0;
    assert(x1 == m);
}

/// A `ContinueDailyReviewResponse` whose encoding has a length that fits a varint is well-formed.
pub proof fn lemma_wf_continue_daily_review_response(m: SpecContinueDailyReviewResponse)
    requires
        fits(m.encoded()),
    ensures
        m.wf(),
{
    reveal(SpecContinueDailyReviewResponse::fields);
    reveal(SpecContinueDailyReviewResponse::wf);
}

/// The outcome of a forced daily refresh.
#[derive(Clone, Debug, PartialEq, Default)]
pub struct ForceDailyRefreshResponse {
    pub refreshed_cards: u64,
    pub available_cards: u64,
    pub generated_cards: u64,
    pub outcome: i32,
}

/// The value of a [`ForceDailyRefreshResponse`].
pub struct SpecForceDailyRefreshResponse {
    pub refreshed_cards: u64,
    pub available_cards: u64,
    pub generated_cards: u64,
    pub outcome: i32,
}

impl View for ForceDailyRefreshResponse {
    type V = SpecForceDailyRefreshResponse;

    open spec fn view(&self) -> SpecForceDailyRefreshResponse {
        SpecForceDailyRefreshResponse {
            refreshed_cards: self.refreshed_cards,
            available_cards: self.available_cards,
            generated_cards: self.generated_cards,
            outcome: self.outcome,
        }
    }
}

impl SpecForceDailyRefreshResponse {
    /// Every field at its default.
    pub open spec fn empty() -> SpecForceDailyRefreshResponse {
        SpecForceDailyRefreshResponse {
            refreshed_cards: 0u64,
            available_cards: 0u64,
            generated_cards: 0u64,
            outcome: 0i32,
        }
    }

    /// The fields written for this value, in field-number order.
    #[verifier::opaque]
    pub open spec fn fields(self) -> Seq<SpecField> {
        seg_u64(1, self.refreshed_cards)
            + seg_u64(2, self.available_cards)
            + seg_u64(3, self.generated_cards)
            + seg_i32(4, self.outcome)
    }

    pub open spec fn encoded(self) -> Seq<u8> {
        encode_fields(self.fields())
    }

    pub open spec fn encode_all(v: Seq<SpecForceDailyRefreshResponse>) -> Seq<Seq<u8>> {
        Seq::new(v.len(), |i: int| v[i].encoded())
    }

    /// Every length-delimited payload fits a varint length.
    #[verifier::opaque]
    pub open spec fn wf(self) -> bool {
        true
    }
}

impl Message for SpecForceDailyRefreshResponse {
    open spec fn merge(self, f: SpecField) -> Option<SpecForceDailyRefreshResponse> {
        if f.number == 1 {
            match as_varint(f.value) { Some(v) => Some(SpecForceDailyRefreshResponse { refreshed_cards: v, ..self }), None => None }
        } else if f.number == 2 {
            match as_varint(f.value) { Some(v) => Some(SpecForceDailyRefreshResponse { available_cards: v, ..self }), None => None }
        } else if f.number == 3 {
            match as_varint(f.value) { Some(v) => Some(SpecForceDailyRefreshResponse { generated_cards: v, ..self }), None => None }
        } else if f.number == 4 {
            match as_varint(f.value) { Some(v) => Some(SpecForceDailyRefreshResponse { outcome: v as i32, ..self }), None => None }
        } else {
            Some(self)
        }
    }
}

impl WireMessage for ForceDailyRefreshResponse {
    type Spec = SpecForceDailyRefreshResponse;

    open spec fn spec_of(&self) -> SpecForceDailyRefreshResponse {
        self@
    }

    open spec fn spec_default() -> SpecForceDailyRefreshResponse {
        SpecForceDailyRefreshResponse::empty()
    }

    fn default_value() -> (r: Self) {
        let r = ForceDailyRefreshResponse {
            refreshed_cards: 0,
            available_cards: 0,
            generated_cards: 0,
            outcome: 0,
        };
        r
    }

    fn merge_raw(&mut self, buf: &[u8], f: &RawField) -> (ok: bool) {
        if f.number == 1 {
            match raw_varint(f) { Some(v) => { self.refreshed_cards = v; true }, None => false }
        } else if f.number == 2 {
            match raw_varint(f) { Some(v) => { self.available_cards = v; true }, None => false }
        } else if f.number == 3 {
            match raw_varint(f) { Some(v) => { self.generated_cards = v; true }, None => false }
        } else if f.number == 4 {
            match raw_varint(f) { Some(v) => { self.outcome = v as i32; true }, None => false }
        } else {
            true
        }
    }
}

impl ForceDailyRefreshResponse {
    /// Appends the protobuf encoding of this message.
    pub fn encode_to(&self, out: &mut Vec<u8>)
        ensures
            final(out)@ == old(out)@ + self@.encoded(),
    {
        let ghost start = out@;
        proof {
            reveal(SpecForceDailyRefreshResponse::fields);
        }
        let ghost s0 = seg_u64(1, self@.refreshed_cards);
        put_u64(out, 1, self.refreshed_cards);
        let ghost p0 = s0;
        assert(out@ =~= start + encode_fields(p0));
        let ghost s1 = seg_u64(2, self@.available_cards);
        put_u64(out, 2, self.available_cards);
        let ghost p1 = p0 + s1;
        proof {
            lemma_encode_fields_append(p0, s1);
        }
        assert(out@ =~= start + encode_fields(p1));
        let ghost s2 = seg_u64(3, self@.generated_cards);
        put_u64(out, 3, self.generated_cards);
        let ghost p2 = p1 + s2;
        proof {
            lemma_encode_fields_append(p1, s2);
        }
        assert(out@ =~= start + encode_fields(p2));
        let ghost s3 = seg_i32(4, self@.outcome);
        put_i32(out, 4, self.outcome);
        let ghost p3 = p2 + s3;
        proof {
            lemma_encode_fields_append(p2, s3);
        }
        assert(out@ =~= start + encode_fields(p3));
        assert(out@ =~= start + self@.encoded());
    }

    /// The protobuf encoding of this message.
    pub fn encode_to_vec(&self) -> (r: Vec<u8>)
        ensures
            r@ == self@.encoded(),
    {
        let mut out: Vec<u8> = Vec::new();
        self.encode_to(&mut out);
        assert(out@ =~= self@.encoded());
        out
    }

    /// Decodes a message; `None` where the bytes are not a valid encoding.
    pub fn decode(buf: &[u8]) -> (r: Option<ForceDailyRefreshResponse>)
        ensures
            match decode_into(buf@, SpecForceDailyRefreshResponse::empty()) {
                Some(m) => r matches Some(v) && v@ == m,
                None => r is None,
            },
    {
        decode_message::<ForceDailyRefreshResponse>(buf)
    }

    /// Appends one length-delimited field `n` per element of `v`.
    pub fn put_repeated(out: &mut Vec<u8>, n: u32, v: &Vec<ForceDailyRefreshResponse>)
        requires
            1 <= n <= MAX_FIELD_NUMBER,
        ensures
            final(out)@ == old(out)@ + encode_fields(seg_rep(n, SpecForceDailyRefreshResponse::encode_all(Seq::new(v@.len(), |i: int| v@[i]@)))),
    {
        let ghost all = SpecForceDailyRefreshResponse::encode_all(Seq::new(v@.len(), |i: int| v@[i]@));
        let mut part: Vec<u8> = Vec::new();
        let mut i: usize = 0;
        proof {
            lemma_seg_rep_full(n, all);
            lemma_encode_empty();
        }
        while i < v.len()
            invariant
                1 <= n <= MAX_FIELD_NUMBER,
                i <= v@.len(),
                all == SpecForceDailyRefreshResponse::encode_all(Seq::new(v@.len(), |i: int| v@[i]@)),
                part@ == encode_fields(seg_rep(n, all.take(i as int))),
            decreases v@.len() - i,
        {
            let b = v[i].encode_to_vec();
            proof {
                assert(all.take(i as int).push(b@) =~= all.take(i + 1));
            }
            put_rep_item(&mut part, n, b.as_slice(), Ghost(all.take(i as int)));
            i = i + 1;
        }
        proof {
            lemma_seg_rep_full(n, all);
        }
        append_all(out, &part);
    }
}

/// Decoding the fields of a well-formed `ForceDailyRefreshResponse` gives it back.
pub proof fn lemma_round_force_daily_refresh_response(m: SpecForceDailyRefreshResponse)
    requires
        m.wf(),
    ensures
        merge_fields(m.fields(), SpecForceDailyRefreshResponse::empty()) == Some(m),
        fields_wf(m.fields()),
{
    reveal(SpecForceDailyRefreshResponse::fields);
    reveal(SpecForceDailyRefreshResponse::wf);
    let x0 = SpecForceDailyRefreshResponse::empty();
    let x1 = SpecForceDailyRefreshResponse { refreshed_cards: m.refreshed_cards, available_cards: 0u64, generated_cards: 0u64, outcome: 0i32 };
    let s0 = seg_u64(1, m.refreshed_cards);
    assert(merge_fields(s0, x0) == Some(x1) && fields_wf(s0)) by {
        lemma_seg_u64::<SpecForceDailyRefreshResponse>(1, m.refreshed_cards, x0);
    }
    let p0 = s0;
    let x2 = SpecForceDailyRefreshResponse { refreshed_cards: m.refreshed_cards, available_cards: m.available_cards, generated_cards: 0u64, outcome: 0i32 };
    let s1 = seg_u64(2, m.available_cards);
    assert(merge_fields(s1, x1) == Some(x2) && fields_wf(s1)) by {
        lemma_seg_u64::<SpecForceDailyRefreshResponse>(2, m.available_cards, x1);
    }
    let p1 = p0 + s1;
    lemma_chain::<SpecForceDailyRefreshResponse>(p0, s1, x0, x1, x2);
    let x3 = SpecForceDailyRefreshResponse { refreshed_cards: m.refreshed_cards, available_cards: m.available_cards, generated_cards: m.generated_cards, outcome: 0i32 };
    let s2 = seg_u64(3, m.generated_cards);
    assert(merge_fields(s2, x2) == Some(x3) && fields_wf(s2)) by {
        lemma_seg_u64::<SpecForceDailyRefreshResponse>(3, m.generated_cards, x2);
    }
    let p2 = p1 + s2;
    lemma_chain::<SpecForceDailyRefreshResponse>(p1, s2, x0, x2, x3);
    let x4 = SpecForceDailyRefreshResponse { refreshed_cards: m.refreshed_cards, available_cards: m.available_cards, generated_cards: m.generated_cards, outcome: m.outcome };
    let s3 = seg_i32(4, m.outcome);
    assert(merge_fields(s3, x3) == Some(x4) && fields_wf(s3)) by {
        lemma_zero_i32(m.outcome);
        lemma_seg_u64::<SpecForceDailyRefreshResponse>(4, m.outcome as u64, x3);
    }
    let p3 = p2 + s3;
    lemma_chain::<SpecForceDailyRefreshResponse>(p2, s3, x0, x3, x4);
    assert(x4 == m);
}

/// A `ForceDailyRefreshResponse` whose encoding has a length that fits a varint is well-formed.
pub proof fn lemma_wf_force_daily_refresh_response(m: SpecForceDailyRefreshResponse)
    requires
        fits(m.encoded()),
    ensures
        m.wf(),
{
    reveal(SpecForceDailyRefreshResponse::fields);
    reveal(SpecForceDailyRefreshResponse::wf);
}

/// The user settings.
#[derive(Clone, Debug, PartialEq, Default)]
pub struct SettingsResponse {
    pub model: String,
    pub vision_model: String,
    pub compress_model: String,
    pub template: String,
    pub api_key: String,
    pub base_url: String,
    pub compress_base_url: String,
    pub reasoning_effort: String,
    pub compress_reasoning_effort: String,
    pub compression_level: String,
    pub color_scheme: String,
    pub transparency: String,
    pub blur_intensity: String,
    pub autoupdate_enabled: bool,
    pub autoupdate_repo: String,
    pub autoupdate_branch: String,
    pub autoupdate_check_interval_secs: u64,
    pub autoupdate_command: String,
    pub autoupdate_last_seen_sha: String,
    pub daily_time_zone: String,
    pub daily_update_time: String,
    pub max_active_cards: u64,
    pub grounding_strategy: String,
    pub image_strategy: String,
    pub search_provider: String,
    pub scrape_provider: String,
    pub search_api_key: String,
    pub search_base_url: String,
    pub image_sources: String,
    pub grounding_model: String,
    pub grounding_reasoning_effort: String,
}

/// The value of a [`SettingsResponse`].
pub struct SpecSettingsResponse {
    pub model: Seq<char>,
    pub vision_model: Seq<char>,
    pub compress_model: Seq<char>,
    pub template: Seq<char>,
    pub api_key: Seq<char>,
    pub base_url: Seq<char>,
    pub compress_base_url: Seq<char>,
    pub reasoning_effort: Seq<char>,
    pub compress_reasoning_effort: Seq<char>,
    pub compression_level: Seq<char>,
    pub color_scheme: Seq<char>,
    pub transparency: Seq<char>,
    pub blur_intensity: Seq<char>,
    pub autoupdate_enabled: bool,
    pub autoupdate_repo: Seq<char>,
    pub autoupdate_branch: Seq<char>,
    pub autoupdate_check_interval_secs: u64,
    pub autoupdate_command: Seq<char>,
    pub autoupdate_last_seen_sha: Seq<char>,
    pub daily_time_zone: Seq<char>,
    pub daily_update_time: Seq<char>,
    pub max_active_cards: u64,
    pub grounding_strategy: Seq<char>,
    pub image_strategy: Seq<char>,
    pub search_provider: Seq<char>,
    pub scrape_provider: Seq<char>,
    pub search_api_key: Seq<char>,
    pub search_base_url: Seq<char>,
    pub image_sources: Seq<char>,
    pub grounding_model: Seq<char>,
    pub grounding_reasoning_effort: Seq<char>,
}

impl View for SettingsResponse {
    type V = SpecSettingsResponse;

    open spec fn view(&self) -> SpecSettingsResponse {
        SpecSettingsResponse {
            model: self.model@,
            vision_model: self.vision_model@,
            compress_model: self.compress_model@,
            template: self.template@,
            api_key: self.api_key@,
            base_url: self.base_url@,
            compress_base_url: self.compress_base_url@,
            reasoning_effort: self.reasoning_effort@,
            compress_reasoning_effort: self.compress_reasoning_effort@,
            compression_level: self.compression_level@,
            color_scheme: self.color_scheme@,
            transparency: self.transparency@,
            blur_intensity: self.blur_intensity@,
            autoupdate_enabled: self.autoupdate_enabled,
            autoupdate_repo: self.autoupdate_repo@,
            autoupdate_branch: self.autoupdate_branch@,
            autoupdate_check_interval_secs: self.autoupdate_check_interval_secs,
            autoupdate_command: self.autoupdate_command@,
            autoupdate_last_seen_sha: self.autoupdate_last_seen_sha@,
            daily_time_zone: self.daily_time_zone@,
            daily_update_time: self.daily_update_time@,
            max_active_cards: self.max_active_cards,
            grounding_strategy: self.grounding_strategy@,
            image_strategy: self.image_strategy@,
            search_provider: self.search_provider@,
            scrape_provider: self.scrape_provider@,
            search_api_key: self.search_api_key@,
            search_base_url: self.search_base_url@,
            image_sources: self.image_sources@,
            grounding_model: self.grounding_model@,
            grounding_reasoning_effort: self.grounding_reasoning_effort@,
        }
    }
}

impl SpecSettingsResponse {
    /// Every field at its default.
    pub open spec fn empty() -> SpecSettingsResponse {
        SpecSettingsResponse {
            model: Seq::empty(),
            vision_model: Seq::empty(),
            compress_model: Seq::empty(),
            template: Seq::empty(),
            api_key: Seq::empty(),
            base_url: Seq::empty(),
            compress_base_url: Seq::empty(),
            reasoning_effort: Seq::empty(),
            compress_reasoning_effort: Seq::empty(),
            compression_level: Seq::empty(),
            color_scheme: Seq::empty(),
            transparency: Seq::empty(),
            blur_intensity: Seq::empty(),
            autoupdate_enabled: false,
            autoupdate_repo: Seq::empty(),
            autoupdate_branch: Seq::empty(),
            autoupdate_check_interval_secs: 0u64,
            autoupdate_command: Seq::empty(),
            autoupdate_last_seen_sha: Seq::empty(),
            daily_time_zone: Seq::empty(),
            daily_update_time: Seq::empty(),
            max_active_cards: 0u64,
            grounding_strategy: Seq::empty(),
            image_strategy: Seq::empty(),
            search_provider: Seq::empty(),
            scrape_provider: Seq::empty(),
            search_api_key: Seq::empty(),
            search_base_url: Seq::empty(),
            image_sources: Seq::empty(),
            grounding_model: Seq::empty(),
            grounding_reasoning_effort: Seq::empty(),
        }
    }

    /// The fields of part 0 of the message, in field-number order.
    #[verifier::opaque]
    pub open spec fn fields_part0(self) -> Seq<SpecField> {
        seg_str(1, self.model)
            + seg_str(2, self.vision_model)
            + seg_str(3, self.compress_model)
            + seg_str(4, self.template)
            + seg_str(5, self.api_key)
            + seg_str(6, self.base_url)
            + seg_str(7, self.compress_base_url)
            + seg_str(8, self.reasoning_effort)
    }

    /// The fields of part 1 of the message, in field-number order.
    #[verifier::opaque]
    pub open spec fn fields_part1(self) -> Seq<SpecField> {
        seg_str(9, self.compress_reasoning_effort)
            + seg_str(10, self.compression_level)
            + seg_str(11, self.color_scheme)
            + seg_str(12, self.transparency)
            + seg_str(13, self.blur_intensity)
            + seg_bool(14, self.autoupdate_enabled)
            + seg_str(15, self.autoupdate_repo)
            + seg_str(16, self.autoupdate_branch)
    }

    /// The fields of part 2 of the message, in field-number order.
    #[verifier::opaque]
    pub open spec fn fields_part2(self) -> Seq<SpecField> {
        seg_u64(17, self.autoupdate_check_interval_secs)
            + seg_str(18, self.autoupdate_command)
            + seg_str(19, self.autoupdate_last_seen_sha)
            + seg_str(20, self.daily_time_zone)
            + seg_str(21, self.daily_update_time)
            + seg_u64(22, self.max_active_cards)
            + seg_str(23, self.grounding_strategy)
            + seg_str(24, self.image_strategy)
    }

    /// The fields of part 3 of the message, in field-number order.
    #[verifier::opaque]
    pub open spec fn fields_part3(self) -> Seq<SpecField> {
        seg_str(25, self.search_provider)
            + seg_str(26, self.scrape_provider)
            + seg_str(27, self.search_api_key)
            + seg_str(28, self.search_base_url)
            + seg_str(29, self.image_sources)
            + seg_str(30, self.grounding_model)
            + seg_str(31, self.grounding_reasoning_effort)
    }

    /// The fields written for this value, in field-number order.
    #[verifier::opaque]
    pub open spec fn fields(self) -> Seq<SpecField> {
        self.fields_part0() + self.fields_part1() + self.fields_part2() + self.fields_part3()
    }

    pub open spec fn encoded(self) -> Seq<u8> {
        encode_fields(self.fields())
    }

    pub open spec fn encode_all(v: Seq<SpecSettingsResponse>) -> Seq<Seq<u8>> {
        Seq::new(v.len(), |i: int| v[i].encoded())
    }

    /// Every length-delimited payload fits a varint length.
    #[verifier::opaque]
    pub open spec fn wf(self) -> bool {
        fits(encode_utf8(self.model))
        && fits(encode_utf8(self.vision_model))
        && fits(encode_utf8(self.compress_model))
        && fits(encode_utf8(self.template))
        && fits(encode_utf8(self.api_key))
        && fits(encode_utf8(self.base_url))
        && fits(encode_utf8(self.compress_base_url))
        && fits(encode_utf8(self.reasoning_effort))
        && fits(encode_utf8(self.compress_reasoning_effort))
        && fits(encode_utf8(self.compression_level))
        && fits(encode_utf8(self.color_scheme))
        && fits(encode_utf8(self.transparency))
        && fits(encode_utf8(self.blur_intensity))
        && fits(encode_utf8(self.autoupdate_repo))
        && fits(encode_utf8(self.autoupdate_branch))
        && fits(encode_utf8(self.autoupdate_command))
        && fits(encode_utf8(self.autoupdate_last_seen_sha))
        && fits(encode_utf8(self.daily_time_zone))
        && fits(encode_utf8(self.daily_update_time))
        && fits(encode_utf8(self.grounding_strategy))
        && fits(encode_utf8(self.image_strategy))
        && fits(encode_utf8(self.search_provider))
        && fits(encode_utf8(self.scrape_provider))
        && fits(encode_utf8(self.search_api_key))
        && fits(encode_utf8(self.search_base_url))
        && fits(encode_utf8(self.image_sources))
        && fits(encode_utf8(self.grounding_model))
        && fits(encode_utf8(self.grounding_reasoning_effort))
    }
}

impl Message for SpecSettingsResponse {
    open spec fn merge(self, f: SpecField) -> Option<SpecSettingsResponse> {
        if f.number == 1 {
            match as_string(f.value) { Some(s) => Some(SpecSettingsResponse { model: s, ..self }), None => None }
        } else if f.number == 2 {
            match as_string(f.value) { Some(s) => Some(SpecSettingsResponse { vision_model: s, ..self }), None => None }
        } else if f.number == 3 {
            match as_string(f.value) { Some(s) => Some(SpecSettingsResponse { compress_model: s, ..self }), None => None }
        } else if f.number == 4 {
            match as_string(f.value) { Some(s) => Some(SpecSettingsResponse { template: s, ..self }), None => None }
        } else if f.number == 5 {
            match as_string(f.value) { Some(s) => Some(SpecSettingsResponse { api_key: s, ..self }), None => None }
        } else if f.number == 6 {
            match as_string(f.value) { Some(s) => Some(SpecSettingsResponse { base_url: s, ..self }), None => None }
        } else if f.number == 7 {
            match as_string(f.value) { Some(s) => Some(SpecSettingsResponse { compress_base_url: s, ..self }), None => None }
        } else if f.number == 8 {
            match as_string(f.value) { Some(s) => Some(SpecSettingsResponse { reasoning_effort: s, ..self }), None => None }
        } else if f.number == 9 {
            match as_string(f.value) { Some(s) => Some(SpecSettingsResponse { compress_reasoning_effort: s, ..self }), None => None }
        } else if f.number == 10 {
            match as_string(f.value) { Some(s) => Some(SpecSettingsResponse { compression_level: s, ..self }), None => None }
        } else if f.number == 11 {
            match as_string(f.value) { Some(s) => Some(SpecSettingsResponse { color_scheme: s, ..self }), None => None }
        } else if f.number == 12 {
            match as_string(f.value) { Some(s) => Some(SpecSettingsResponse { transparency: s, ..self }), None => None }
        } else if f.number == 13 {
            match as_string(f.value) { Some(s) => Some(SpecSettingsResponse { blur_intensity: s, ..self }), None => None }
        } else if f.number == 14 {
            match as_varint(f.value) { Some(v) => Some(SpecSettingsResponse { autoupdate_enabled: v != 0, ..self }), None => None }
        } else if f.number == 15 {
            match as_string(f.value) { Some(s) => Some(SpecSettingsResponse { autoupdate_repo: s, ..self }), None => None }
        } else if f.number == 16 {
            match as_string(f.value) { Some(s) => Some(SpecSettingsResponse { autoupdate_branch: s, ..self }), None => None }
        } else if f.number == 17 {
            match as_varint(f.value) { Some(v) => Some(SpecSettingsResponse { autoupdate_check_interval_secs: v, ..self }), None => None }
        } else if f.number == 18 {
            match as_string(f.value) { Some(s) => Some(SpecSettingsResponse { autoupdate_command: s, ..self }), None => None }
        } else if f.number == 19 {
            match as_string(f.value) { Some(s) => Some(SpecSettingsResponse { autoupdate_last_seen_sha: s, ..self }), None => None }
        } else if f.number == 20 {
            match as_string(f.value) { Some(s) => Some(SpecSettingsResponse { daily_time_zone: s, ..self }), None => None }
        } else if f.number == 21 {
            match as_string(f.value) { Some(s) => Some(SpecSettingsResponse { daily_update_time: s, ..self }), None => None }
        } else if f.number == 22 {
            match as_varint(f.value) { Some(v) => Some(SpecSettingsResponse { max_active_cards: v, ..self }), None => None }
        } else if f.number == 23 {
            match as_string(f.value) { Some(s) => Some(SpecSettingsResponse { grounding_strategy: s, ..self }), None => None }
        } else if f.number == 24 {
            match as_string(f.value) { Some(s) => Some(SpecSettingsResponse { image_strategy: s, ..self }), None => None }
        } else if f.number == 25 {
            match as_string(f.value) { Some(s) => Some(SpecSettingsResponse { search_provider: s, ..self }), None => None }
        } else if f.number == 26 {
            match as_string(f.value) { Some(s) => Some(SpecSettingsResponse { scrape_provider: s, ..self }), None => None }
        } else if f.number == 27 {
            match as_string(f.value) { Some(s) => Some(SpecSettingsResponse { search_api_key: s, ..self }), None => None }
        } else if f.number == 28 {
            match as_string(f.value) { Some(s) => Some(SpecSettingsResponse { search_base_url: s, ..self }), None => None }
        } else if f.number == 29 {
            match as_string(f.value) { Some(s) => Some(SpecSettingsResponse { image_sources: s, ..self }), None => None }
        } else if f.number == 30 {
            match as_string(f.value) { Some(s) => Some(SpecSettingsResponse { grounding_model: s, ..self }), None => None }
        } else if f.number == 31 {
            match as_string(f.value) { Some(s) => Some(SpecSettingsResponse { grounding_reasoning_effort: s, ..self }), None => None }
        } else {
            Some(self)
        }
    }
}

impl WireMessage for SettingsResponse {
    type Spec = SpecSettingsResponse;

    open spec fn spec_of(&self) -> SpecSettingsResponse {
        self@
    }

    open spec fn spec_default() -> SpecSettingsResponse {
        SpecSettingsResponse::empty()
    }

    fn default_value() -> (r: Self) {
        let r = SettingsResponse {
            model: String::new(),
            vision_model: String::new(),
            compress_model: String::new(),
            template: String::new(),
            api_key: String::new(),
            base_url: String::new(),
            compress_base_url: String::new(),
            reasoning_effort: String::new(),
            compress_reasoning_effort: String::new(),
            compression_level: String::new(),
            color_scheme: String::new(),
            transparency: String::new(),
            blur_intensity: String::new(),
            autoupdate_enabled: false,
            autoupdate_repo: String::new(),
            autoupdate_branch: String::new(),
            autoupdate_check_interval_secs: 0,
            autoupdate_command: String::new(),
            autoupdate_last_seen_sha: String::new(),
            daily_time_zone: String::new(),
            daily_update_time: String::new(),
            max_active_cards: 0,
            grounding_strategy: String::new(),
            image_strategy: String::new(),
            search_provider: String::new(),
            scrape_provider: String::new(),
            search_api_key: String::new(),
            search_base_url: String::new(),
            image_sources: String::new(),
            grounding_model: String::new(),
            grounding_reasoning_effort: String::new(),
        };
        r
    }

    fn merge_raw(&mut self, buf: &[u8], f: &RawField) -> (ok: bool) {
        if f.number <= 4 {
            self.merge_raw_part0(buf, f)
        } else if f.number <= 8 {
            self.merge_raw_part1(buf, f)
        } else if f.number <= 12 {
            self.merge_raw_part2(buf, f)
        } else if f.number <= 16 {
            self.merge_raw_part3(buf, f)
        } else if f.number <= 20 {
            self.merge_raw_part4(buf, f)
        } else if f.number <= 24 {
            self.merge_raw_part5(buf, f)
        } else if f.number <= 28 {
            self.merge_raw_part6(buf, f)
        } else {
            self.merge_raw_part7(buf, f)
        }
    }
}

impl SettingsResponse {
    #[verifier::rlimit(100)]
    fn merge_raw_part0(&mut self, buf: &[u8], f: &RawField) -> (ok: bool)
        requires
            f.within(buf@.len()),
            f.number <= 4,
        ensures
            ok == (old(self)@.merge(f.spec(buf@)) is Some),
            ok ==> final(self)@ == old(self)@.merge(f.spec(buf@))->0,
    {
        if f.number == 1 {
            match raw_string(buf, f) { Some(s) => { self.model = s; true }, None => false }
        } else if f.number == 2 {
            match raw_string(buf, f) { Some(s) => { self.vision_model = s; true }, None => false }
        } else if f.number == 3 {
            match raw_string(buf, f) { Some(s) => { self.compress_model = s; true }, None => false }
        } else if f.number == 4 {
            match raw_string(buf, f) { Some(s) => { self.template = s; true }, None => false }
        } else {
            true
        }
    }

    #[verifier::rlimit(100)]
    fn merge_raw_part1(&mut self, buf: &[u8], f: &RawField) -> (ok: bool)
        requires
            f.within(buf@.len()),
            4 < f.number,
            f.number <= 8,
        ensures
            ok == (old(self)@.merge(f.spec(buf@)) is Some),
            ok ==> final(self)@ == old(self)@.merge(f.spec(buf@))->0,
    {
        if f.number == 5 {
            match raw_string(buf, f) { Some(s) => { self.api_key = s; true }, None => false }
        } else if f.number == 6 {
            match raw_string(buf, f) { Some(s) => { self.base_url = s; true }, None => false }
        } else if f.number == 7 {
            match raw_string(buf, f) { Some(s) => { self.compress_base_url = s; true }, None => false }
        } else if f.number == 8 {
            match raw_string(buf, f) { Some(s) => { self.reasoning_effort = s; true }, None => false }
        } else {
            true
        }
    }

    #[verifier::rlimit(100)]
    fn merge_raw_part2(&mut self, buf: &[u8], f: &RawField) -> (ok: bool)
        requires
            f.within(buf@.len()),
            8 < f.number,
            f.number <= 12,
        ensures
            ok == (old(self)@.merge(f.spec(buf@)) is Some),
            ok ==> final(self)@ == old(self)@.merge(f.spec(buf@))->0,
    {
        if f.number == 9 {
            match raw_string(buf, f) { Some(s) => { self.compress_reasoning_effort = s; true }, None => false }
        } else if f.number == 10 {
            match raw_string(buf, f) { Some(s) => { self.compression_level = s; true }, None => false }
        } else if f.number == 11 {
            match raw_string(buf, f) { Some(s) => { self.color_scheme = s; true }, None => false }
        } else if f.number == 12 {
            match raw_string(buf, f) { Some(s) => { self.transparency = s; true }, None => false }
        } else {
            true
        }
    }

    #[verifier::rlimit(100)]
    fn merge_raw_part3(&mut self, buf: &[u8], f: &RawField) -> (ok: bool)
        requires
            f.within(buf@.len()),
            12 < f.number,
            f.number <= 16,
        ensures
            ok == (old(self)@.merge(f.spec(buf@)) is Some),
            ok ==> final(self)@ == old(self)@.merge(f.spec(buf@))->0,
    {
        if f.number == 13 {
            match raw_string(buf, f) { Some(s) => { self.blur_intensity = s; true }, None => false }
        } else if f.number == 14 {
            match raw_varint(f) { Some(v) => { self.autoupdate_enabled = v != 0; true }, None => false }
        } else if f.number == 15 {
            match raw_string(buf, f) { Some(s) => { self.autoupdate_repo = s; true }, None => false }
        } else if f.number == 16 {
            match raw_string(buf, f) { Some(s) => { self.autoupdate_branch = s; true }, None => false }
        } else {
            true
        }
    }

    #[verifier::rlimit(100)]
    fn merge_raw_part4(&mut self, buf: &[u8], f: &RawField) -> (ok: bool)
        requires
            f.within(buf@.len()),
            16 < f.number,
            f.number <= 20,
        ensures
            ok == (old(self)@.merge(f.spec(buf@)) is Some),
            ok ==> final(self)@ == old(self)@.merge(f.spec(buf@))->0,
    {
        if f.number == 17 {
            match raw_varint(f) { Some(v) => { self.autoupdate_check_interval_secs = v; true }, None => false }
        } else if f.number == 18 {
            match raw_string(buf, f) { Some(s) => { self.autoupdate_command = s; true }, None => false }
        } else if f.number == 19 {
            match raw_string(buf, f) { Some(s) => { self.autoupdate_last_seen_sha = s; true }, None => false }
        } else if f.number == 20 {
            match raw_string(buf, f) { Some(s) => { self.daily_time_zone = s; true }, None => false }
        } else {
            true
        }
    }

    #[verifier::rlimit(100)]
    fn merge_raw_part5(&mut self, buf: &[u8], f: &RawField) -> (ok: bool)
        requires
            f.within(buf@.len()),
            20 < f.number,
            f.number <= 24,
        ensures
            ok == (old(self)@.merge(f.spec(buf@)) is Some),
            ok ==> final(self)@ == old(self)@.merge(f.spec(buf@))->0,
    {
        if f.number == 21 {
            match raw_string(buf, f) { Some(s) => { self.daily_update_time = s; true }, None => false }
        } else if f.number == 22 {
            match raw_varint(f) { Some(v) => { self.max_active_cards = v; true }, None => false }
        } else if f.number == 23 {
            match raw_string(buf, f) { Some(s) => { self.grounding_strategy = s; true }, None => false }
        } else if f.number == 24 {
            match raw_string(buf, f) { Some(s) => { self.image_strategy = s; true }, None => false }
        } else {
            true
        }
    }

    #[verifier::rlimit(100)]
    fn merge_raw_part6(&mut self, buf: &[u8], f: &RawField) -> (ok: bool)
        requires
            f.within(buf@.len()),
            24 < f.number,
            f.number <= 28,
        ensures
            ok == (old(self)@.merge(f.spec(buf@)) is Some),
            ok ==> final(self)@ == old(self)@.merge(f.spec(buf@))->0,
    {
        if f.number == 25 {
            match raw_string(buf, f) { Some(s) => { self.search_provider = s; true }, None => false }
        } else if f.number == 26 {
            match raw_string(buf, f) { Some(s) => { self.scrape_provider = s; true }, None => false }
        } else if f.number == 27 {
            match raw_string(buf, f) { Some(s) => { self.search_api_key = s; true }, None => false }
        } else if f.number == 28 {
            match raw_string(buf, f) { Some(s) => { self.search_base_url = s; true }, None => false }
        } else {
            true
        }
    }

    #[verifier::rlimit(100)]
    fn merge_raw_part7(&mut self, buf: &[u8], f: &RawField) -> (ok: bool)
        requires
            f.within(buf@.len()),
            28 < f.number,
        ensures
            ok == (old(self)@.merge(f.spec(buf@)) is Some),
            ok ==> final(self)@ == old(self)@.merge(f.spec(buf@))->0,
    {
        if f.number == 29 {
            match raw_string(buf, f) { Some(s) => { self.image_sources = s; true }, None => false }
        } else if f.number == 30 {
            match raw_string(buf, f) { Some(s) => { self.grounding_model = s; true }, None => false }
        } else if f.number == 31 {
            match raw_string(buf, f) { Some(s) => { self.grounding_reasoning_effort = s; true }, None => false }
        } else {
            true
        }
    }

}

impl SettingsResponse {
    #[verifier::rlimit(100)]
    fn encode_part0(&self, out: &mut Vec<u8>)
        ensures
            final(out)@ == old(out)@ + encode_fields(self@.fields_part0()),
    {
        let ghost start = out@;
        proof {
            reveal(SpecSettingsResponse::fields_part0);
        }
        let ghost s0 = seg_str(1, self@.model);
        put_str(out, 1, self.model.as_str());
        let ghost p0 = s0;
        assert(out@ =~= start + encode_fields(p0));
        let ghost s1 = seg_str(2, self@.vision_model);
        put_str(out, 2, self.vision_model.as_str());
        let ghost p1 = p0 + s1;
        proof {
            lemma_encode_fields_append(p0, s1);
        }
        assert(out@ =~= start + encode_fields(p1));
        let ghost s2 = seg_str(3, self@.compress_model);
        put_str(out, 3, self.compress_model.as_str());
        let ghost p2 = p1 + s2;
        proof {
            lemma_encode_fields_append(p1, s2);
        }
        assert(out@ =~= start + encode_fields(p2));
        let ghost s3 = seg_str(4, self@.template);
        put_str(out, 4, self.template.as_str());
        let ghost p3 = p2 + s3;
        proof {
            lemma_encode_fields_append(p2, s3);
        }
        assert(out@ =~= start + encode_fields(p3));
        let ghost s4 = seg_str(5, self@.api_key);
        put_str(out, 5, self.api_key.as_str());
        let ghost p4 = p3 + s4;
        proof {
            lemma_encode_fields_append(p3, s4);
        }
        assert(out@ =~= start + encode_fields(p4));
        let ghost s5 = seg_str(6, self@.base_url);
        put_str(out, 6, self.base_url.as_str());
        let ghost p5 = p4 + s5;
        proof {
            lemma_encode_fields_append(p4, s5);
        }
        assert(out@ =~= start + encode_fields(p5));
        let ghost s6 = seg_str(7, self@.compress_base_url);
        put_str(out, 7, self.compress_base_url.as_str());
        let ghost p6 = p5 + s6;
        proof {
            lemma_encode_fields_append(p5, s6);
        }
        assert(out@ =~= start + encode_fields(p6));
        let ghost s7 = seg_str(8, self@.reasoning_effort);
        put_str(out, 8, self.reasoning_effort.as_str());
        let ghost p7 = p6 + s7;
        proof {
            lemma_encode_fields_append(p6, s7);
        }
        assert(out@ =~= start + encode_fields(p7));
        assert(out@ =~= start + encode_fields(self@.fields_part0()));
    }

    #[verifier::rlimit(100)]
    fn encode_part1(&self, out: &mut Vec<u8>)
        ensures
            final(out)@ == old(out)@ + encode_fields(self@.fields_part1()),
    {
        let ghost start = out@;
        proof {
            reveal(SpecSettingsResponse::fields_part1);
        }
        let ghost s0 = seg_str(9, self@.compress_reasoning_effort);
        put_str(out, 9, self.compress_reasoning_effort.as_str());
        let ghost p0 = s0;
        assert(out@ =~= start + encode_fields(p0));
        let ghost s1 = seg_str(10, self@.compression_level);
        put_str(out, 10, self.compression_level.as_str());
        let ghost p1 = p0 + s1;
        proof {
            lemma_encode_fields_append(p0, s1);
        }
        assert(out@ =~= start + encode_fields(p1));
        let ghost s2 = seg_str(11, self@.color_scheme);
        put_str(out, 11, self.color_scheme.as_str());
        let ghost p2 = p1 + s2;
        proof {
            lemma_encode_fields_append(p1, s2);
        }
        assert(out@ =~= start + encode_fields(p2));
        let ghost s3 = seg_str(12, self@.transparency);
        put_str(out, 12, self.transparency.as_str());
        let ghost p3 = p2 + s3;
        proof {
            lemma_encode_fields_append(p2, s3);
        }
        assert(out@ =~= start + encode_fields(p3));
        let ghost s4 = seg_str(13, self@.blur_intensity);
        put_str(out, 13, self.blur_intensity.as_str());
        let ghost p4 = p3 + s4;
        proof {
            lemma_encode_fields_append(p3, s4);
        }
        assert(out@ =~= start + encode_fields(p4));
        let ghost s5 = seg_bool(14, self@.autoupdate_enabled);
        put_bool(out, 14, self.autoupdate_enabled);
        let ghost p5 = p4 + s5;
        proof {
            lemma_encode_fields_append(p4, s5);
        }
        assert(out@ =~= start + encode_fields(p5));
        let ghost s6 = seg_str(15, self@.autoupdate_repo);
        put_str(out, 15, self.autoupdate_repo.as_str());
        let ghost p6 = p5 + s6;
        proof {
            lemma_encode_fields_append(p5, s6);
        }
        assert(out@ =~= start + encode_fields(p6));
        let ghost s7 = seg_str(16, self@.autoupdate_branch);
        put_str(out, 16, self.autoupdate_branch.as_str());
        let ghost p7 = p6 + s7;
        proof {
            lemma_encode_fields_append(p6, s7);
        }
        assert(out@ =~= start + encode_fields(p7));
        assert(out@ =~= start + encode_fields(self@.fields_part1()));
    }

    #[verifier::rlimit(100)]
    fn encode_part2(&self, out: &mut Vec<u8>)
        ensures
            final(out)@ == old(out)@ + encode_fields(self@.fields_part2()),
    {
        let ghost start = out@;
        proof {
            reveal(SpecSettingsResponse::fields_part2);
        }
        let ghost s0 = seg_u64(17, self@.autoupdate_check_interval_secs);
        put_u64(out, 17, self.autoupdate_check_interval_secs);
        let ghost p0 = s0;
        assert(out@ =~= start + encode_fields(p0));
        let ghost s1 = seg_str(18, self@.autoupdate_command);
        put_str(out, 18, self.autoupdate_command.as_str());
        let ghost p1 = p0 + s1;
        proof {
            lemma_encode_fields_append(p0, s1);
        }
        assert(out@ =~= start + encode_fields(p1));
        let ghost s2 = seg_str(19, self@.autoupdate_last_seen_sha);
        put_str(out, 19, self.autoupdate_last_seen_sha.as_str());
        let ghost p2 = p1 + s2;
        proof {
            lemma_encode_fields_append(p1, s2);
        }
        assert(out@ =~= start + encode_fields(p2));
        let ghost s3 = seg_str(20, self@.daily_time_zone);
        put_str(out, 20, self.daily_time_zone.as_str());
        let ghost p3 = p2 + s3;
        proof {
            lemma_encode_fields_append(p2, s3);
        }
        assert(out@ =~= start + encode_fields(p3));
        let ghost s4 = seg_str(21, self@.daily_update_time);
        put_str(out, 21, self.daily_update_time.as_str());
        let ghost p4 = p3 + s4;
        proof {
            lemma_encode_fields_append(p3, s4);
        }
        assert(out@ =~= start + encode_fields(p4));
        let ghost s5 = seg_u64(22, self@.max_active_cards);
        put_u64(out, 22, self.max_active_cards);
        let ghost p5 = p4 + s5;
        proof {
            lemma_encode_fields_append(p4, s5);
        }
        assert(out@ =~= start + encode_fields(p5));
        let ghost s6 = seg_str(23, self@.grounding_strategy);
        put_str(out, 23, self.grounding_strategy.as_str());
        let ghost p6 = p5 + s6;
        proof {
            lemma_encode_fields_append(p5, s6);
        }
        assert(out@ =~= start + encode_fields(p6));
        let ghost s7 = seg_str(24, self@.image_strategy);
        put_str(out, 24, self.image_strategy.as_str());
        let ghost p7 = p6 + s7;
        proof {
            lemma_encode_fields_append(p6, s7);
        }
        assert(out@ =~= start + encode_fields(p7));
        assert(out@ =~= start + encode_fields(self@.fields_part2()));
    }

    #[verifier::rlimit(100)]
    fn encode_part3(&self, out: &mut Vec<u8>)
        ensures
            final(out)@ == old(out)@ + encode_fields(self@.fields_part3()),
    {
        let ghost start = out@;
        proof {
            reveal(SpecSettingsResponse::fields_part3);
        }
        let ghost s0 = seg_str(25, self@.search_provider);
        put_str(out, 25, self.search_provider.as_str());
        let ghost p0 = s0;
        assert(out@ =~= start + encode_fields(p0));
        let ghost s1 = seg_str(26, self@.scrape_provider);
        put_str(out, 26, self.scrape_provider.as_str());
        let ghost p1 = p0 + s1;
        proof {
            lemma_encode_fields_append(p0, s1);
        }
        assert(out@ =~= start + encode_fields(p1));
        let ghost s2 = seg_str(27, self@.search_api_key);
        put_str(out, 27, self.search_api_key.as_str());
        let ghost p2 = p1 + s2;
        proof {
            lemma_encode_fields_append(p1, s2);
        }
        assert(out@ =~= start + encode_fields(p2));
        let ghost s3 = seg_str(28, self@.search_base_url);
        put_str(out, 28, self.search_base_url.as_str());
        let ghost p3 = p2 + s3;
        proof {
            lemma_encode_fields_append(p2, s3);
        }
        assert(out@ =~= start + encode_fields(p3));
        let ghost s4 = seg_str(29, self@.image_sources);
        put_str(out, 29, self.image_sources.as_str());
        let ghost p4 = p3 + s4;
        proof {
            lemma_encode_fields_append(p3, s4);
        }
        assert(out@ =~= start + encode_fields(p4));
        let ghost s5 = seg_str(30, self@.grounding_model);
        put_str(out, 30, self.grounding_model.as_str());
        let ghost p5 = p4 + s5;
        proof {
            lemma_encode_fields_append(p4, s5);
        }
        assert(out@ =~= start + encode_fields(p5));
        let ghost s6 = seg_str(31, self@.grounding_reasoning_effort);
        put_str(out, 31, self.grounding_reasoning_effort.as_str());
        let ghost p6 = p5 + s6;
        proof {
            lemma_encode_fields_append(p5, s6);
        }
        assert(out@ =~= start + encode_fields(p6));
        assert(out@ =~= start + encode_fields(self@.fields_part3()));
    }

    /// Appends the protobuf encoding of this message.
    pub fn encode_to(&self, out: &mut Vec<u8>)
        ensures
            final(out)@ == old(out)@ + self@.encoded(),
    {
        let ghost start = out@;
        proof {
            reveal(SpecSettingsResponse::fields);
        }
        self.encode_part0(out);
        let ghost q0 = self@.fields_part0();
        assert(out@ =~= start + encode_fields(q0));
        self.encode_part1(out);
        let ghost q1 = q0 + self@.fields_part1();
        proof {
            lemma_encode_fields_append(q0, self@.fields_part1());
        }
        assert(out@ =~= start + encode_fields(q1));
        self.encode_part2(out);
        let ghost q2 = q1 + self@.fields_part2();
        proof {
            lemma_encode_fields_append(q1, self@.fields_part2());
        }
        assert(out@ =~= start + encode_fields(q2));
        self.encode_part3(out);
        let ghost q3 = q2 + self@.fields_part3();
        proof {
            lemma_encode_fields_append(q2, self@.fields_part3());
        }
        assert(out@ =~= start + encode_fields(q3));
        assert(out@ =~= start + self@.encoded());
    }

    /// The protobuf encoding of this message.
    pub fn encode_to_vec(&self) -> (r: Vec<u8>)
        ensures
            r@ == self@.encoded(),
    {
        let mut out: Vec<u8> = Vec::new();
        self.encode_to(&mut out);
        assert(out@ =~= self@.encoded());
        out
    }

    /// Decodes a message; `None` where the bytes are not a valid encoding.
    pub fn decode(buf: &[u8]) -> (r: Option<SettingsResponse>)
        ensures
            match decode_into(buf@, SpecSettingsResponse::empty()) {
                Some(m) => r matches Some(v) && v@ == m,
                None => r is None,
            },
    {
        decode_message::<SettingsResponse>(buf)
    }

    /// Appends one length-delimited field `n` per element of `v`.
    pub fn put_repeated(out: &mut Vec<u8>, n: u32, v: &Vec<SettingsResponse>)
        requires
            1 <= n <= MAX_FIELD_NUMBER,
        ensures
            final(out)@ == old(out)@ + encode_fields(seg_rep(n, SpecSettingsResponse::encode_all(Seq::new(v@.len(), |i: int| v@[i]@)))),
    {
        let ghost all = SpecSettingsResponse::encode_all(Seq::new(v@.len(), |i: int| v@[i]@));
        let mut part: Vec<u8> = Vec::new();
        let mut i: usize = 0;
        proof {
            lemma_seg_rep_full(n, all);
            lemma_encode_empty();
        }
        while i < v.len()
            invariant
                1 <= n <= MAX_FIELD_NUMBER,
                i <= v@.len(),
                all == SpecSettingsResponse::encode_all(Seq::new(v@.len(), |i: int| v@[i]@)),
                part@ == encode_fields(seg_rep(n, all.take(i as int))),
            decreases v@.len() - i,
        {
            let b = v[i].encode_to_vec();
            proof {
                assert(all.take(i as int).push(b@) =~= all.take(i + 1));
            }
            put_rep_item(&mut part, n, b.as_slice(), Ghost(all.take(i as int)));
            i = i + 1;
        }
        proof {
            lemma_seg_rep_full(n, all);
        }
        append_all(out, &part);
    }
}

proof fn lemma_round_settings_response_part0(m: SpecSettingsResponse)
    requires
        m.wf(),
    ensures
        merge_fields(m.fields_part0(), SpecSettingsResponse { model: Seq::empty(), vision_model: Seq::empty(), compress_model: Seq::empty(), template: Seq::empty(), api_key: Seq::empty(), base_url: Seq::empty(), compress_base_url: Seq::empty(), reasoning_effort: Seq::empty(), compress_reasoning_effort: Seq::empty(), compression_level: Seq::empty(), color_scheme: Seq::empty(), transparency: Seq::empty(), blur_intensity: Seq::empty(), autoupdate_enabled: false, autoupdate_repo: Seq::empty(), autoupdate_branch: Seq::empty(), autoupdate_check_interval_secs: 0u64, autoupdate_command: Seq::empty(), autoupdate_last_seen_sha: Seq::empty(), daily_time_zone: Seq::empty(), daily_update_time: Seq::empty(), max_active_cards: 0u64, grounding_strategy: Seq::empty(), image_strategy: Seq::empty(), search_provider: Seq::empty(), scrape_provider: Seq::empty(), search_api_key: Seq::empty(), search_base_url: Seq::empty(), image_sources: Seq::empty(), grounding_model: Seq::empty(), grounding_reasoning_effort: Seq::empty() }) == Some(SpecSettingsResponse { model: m.model, vision_model: m.vision_model, compress_model: m.compress_model, template: m.template, api_key: m.api_key, base_url: m.base_url, compress_base_url: m.compress_base_url, reasoning_effort: m.reasoning_effort, compress_reasoning_effort: Seq::empty(), compression_level: Seq::empty(), color_scheme: Seq::empty(), transparency: Seq::empty(), blur_intensity: Seq::empty(), autoupdate_enabled: false, autoupdate_repo: Seq::empty(), autoupdate_branch: Seq::empty(), autoupdate_check_interval_secs: 0u64, autoupdate_command: Seq::empty(), autoupdate_last_seen_sha: Seq::empty(), daily_time_zone: Seq::empty(), daily_update_time: Seq::empty(), max_active_cards: 0u64, grounding_strategy: Seq::empty(), image_strategy: Seq::empty(), search_provider: Seq::empty(), scrape_provider: Seq::empty(), search_api_key: Seq::empty(), search_base_url: Seq::empty(), image_sources: Seq::empty(), grounding_model: Seq::empty(), grounding_reasoning_effort: Seq::empty() }),
        fields_wf(m.fields_part0()),
{
    reveal(SpecSettingsResponse::fields_part0);
    reveal(SpecSettingsResponse::wf);
    let x0 = SpecSettingsResponse { model: Seq::empty(), vision_model: Seq::empty(), compress_model: Seq::empty(), template: Seq::empty(), api_key: Seq::empty(), base_url: Seq::empty(), compress_base_url: Seq::empty(), reasoning_effort: Seq::empty(), compress_reasoning_effort: Seq::empty(), compression_level: Seq::empty(), color_scheme: Seq::empty(), transparency: Seq::empty(), blur_intensity: Seq::empty(), autoupdate_enabled: false, autoupdate_repo: Seq::empty(), autoupdate_branch: Seq::empty(), autoupdate_check_interval_secs: 0u64, autoupdate_command: Seq::empty(), autoupdate_last_seen_sha: Seq::empty(), daily_time_zone: Seq::empty(), daily_update_time: Seq::empty(), max_active_cards: 0u64, grounding_strategy: Seq::empty(), image_strategy: Seq::empty(), search_provider: Seq::empty(), scrape_provider: Seq::empty(), search_api_key: Seq::empty(), search_base_url: Seq::empty(), image_sources: Seq::empty(), grounding_model: Seq::empty(), grounding_reasoning_effort: Seq::empty() };
    let x1 = SpecSettingsResponse { model: m.model, vision_model: Seq::empty(), compress_model: Seq::empty(), template: Seq::empty(), api_key: Seq::empty(), base_url: Seq::empty(), compress_base_url: Seq::empty(), reasoning_effort: Seq::empty(), compress_reasoning_effort: Seq::empty(), compression_level: Seq::empty(), color_scheme: Seq::empty(), transparency: Seq::empty(), blur_intensity: Seq::empty(), autoupdate_enabled: false, autoupdate_repo: Seq::empty(), autoupdate_branch: Seq::empty(), autoupdate_check_interval_secs: 0u64, autoupdate_command: Seq::empty(), autoupdate_last_seen_sha: Seq::empty(), daily_time_zone: Seq::empty(), daily_update_time: Seq::empty(), max_active_cards: 0u64, grounding_strategy: Seq::empty(), image_strategy: Seq::empty(), search_provider: Seq::empty(), scrape_provider: Seq::empty(), search_api_key: Seq::empty(), search_base_url: Seq::empty(), image_sources: Seq::empty(), grounding_model: Seq::empty(), grounding_reasoning_effort: Seq::empty() };
    let s0 = seg_str(1, m.model);
    assert(merge_fields(s0, x0) == Some(x1) && fields_wf(s0)) by {
        if m.model.len() == 0 { assert(m.model =~= Seq::<char>::empty()); lemma_seg_empty::<SpecSettingsResponse>(x0); } else { lemma_seg_len::<SpecSettingsResponse>(1, encode_utf8(m.model), x0); }
    }
    let p0 = s0;
    let x2 = SpecSettingsResponse { model: m.model, vision_model: m.vision_model, compress_model: Seq::empty(), template: Seq::empty(), api_key: Seq::empty(), base_url: Seq::empty(), compress_base_url: Seq::empty(), reasoning_effort: Seq::empty(), compress_reasoning_effort: Seq::empty(), compression_level: Seq::empty(), color_scheme: Seq::empty(), transparency: Seq::empty(), blur_intensity: Seq::empty(), autoupdate_enabled: false, autoupdate_repo: Seq::empty(), autoupdate_branch: Seq::empty(), autoupdate_check_interval_secs: 0u64, autoupdate_command: Seq::empty(), autoupdate_last_seen_sha: Seq::empty(), daily_time_zone: Seq::empty(), daily_update_time: Seq::empty(), max_active_cards: 0u64, grounding_strategy: Seq::empty(), image_strategy: Seq::empty(), search_provider: Seq::empty(), scrape_provider: Seq::empty(), search_api_key: Seq::empty(), search_base_url: Seq::empty(), image_sources: Seq::empty(), grounding_model: Seq::empty(), grounding_reasoning_effort: Seq::empty() };
    let s1 = seg_str(2, m.vision_model);
    assert(merge_fields(s1, x1) == Some(x2) && fields_wf(s1)) by {
        if m.vision_model.len() == 0 { assert(m.vision_model =~= Seq::<char>::empty()); lemma_seg_empty::<SpecSettingsResponse>(x1); } else { lemma_seg_len::<SpecSettingsResponse>(2, encode_utf8(m.vision_model), x1); }
    }
    let p1 = p0 + s1;
    lemma_chain::<SpecSettingsResponse>(p0, s1, x0, x1, x2);
    let x3 = SpecSettingsResponse { model: m.model, vision_model: m.vision_model, compress_model: m.compress_model, template: Seq::empty(), api_key: Seq::empty(), base_url: Seq::empty(), compress_base_url: Seq::empty(), reasoning_effort: Seq::empty(), compress_reasoning_effort: Seq::empty(), compression_level: Seq::empty(), color_scheme: Seq::empty(), transparency: Seq::empty(), blur_intensity: Seq::empty(), autoupdate_enabled: false, autoupdate_repo: Seq::empty(), autoupdate_branch: Seq::empty(), autoupdate_check_interval_secs: 0u64, autoupdate_command: Seq::empty(), autoupdate_last_seen_sha: Seq::empty(), daily_time_zone: Seq::empty(), daily_update_time: Seq::empty(), max_active_cards: 0u64, grounding_strategy: Seq::empty(), image_strategy: Seq::empty(), search_provider: Seq::empty(), scrape_provider: Seq::empty(), search_api_key: Seq::empty(), search_base_url: Seq::empty(), image_sources: Seq::empty(), grounding_model: Seq::empty(), grounding_reasoning_effort: Seq::empty() };
    let s2 = seg_str(3, m.compress_model);
    assert(merge_fields(s2, x2) == Some(x3) && fields_wf(s2)) by {
        if m.compress_model.len() == 0 { assert(m.compress_model =~= Seq::<char>::empty()); lemma_seg_empty::<SpecSettingsResponse>(x2); } else { lemma_seg_len::<SpecSettingsResponse>(3, encode_utf8(m.compress_model), x2); }
    }
    let p2 = p1 + s2;
    lemma_chain::<SpecSettingsResponse>(p1, s2, x0, x2, x3);
    let x4 = SpecSettingsResponse { model: m.model, vision_model: m.vision_model, compress_model: m.compress_model, template: m.template, api_key: Seq::empty(), base_url: Seq::empty(), compress_base_url: Seq::empty(), reasoning_effort: Seq::empty(), compress_reasoning_effort: Seq::empty(), compression_level: Seq::empty(), color_scheme: Seq::empty(), transparency: Seq::empty(), blur_intensity: Seq::empty(), autoupdate_enabled: false, autoupdate_repo: Seq::empty(), autoupdate_branch: Seq::empty(), autoupdate_check_interval_secs: 0u64, autoupdate_command: Seq::empty(), autoupdate_last_seen_sha: Seq::empty(), daily_time_zone: Seq::empty(), daily_update_time: Seq::empty(), max_active_cards: 0u64, grounding_strategy: Seq::empty(), image_strategy: Seq::empty(), search_provider: Seq::empty(), scrape_provider: Seq::empty(), search_api_key: Seq::empty(), search_base_url: Seq::empty(), image_sources: Seq::empty(), grounding_model: Seq::empty(), grounding_reasoning_effort: Seq::empty() };
    let s3 = seg_str(4, m.template);
    assert(merge_fields(s3, x3) == Some(x4) && fields_wf(s3)) by {
        if m.template.len() == 0 { assert(m.template =~= Seq::<char>::empty()); lemma_seg_empty::<SpecSettingsResponse>(x3); } else { lemma_seg_len::<SpecSettingsResponse>(4, encode_utf8(m.template), x3); }
    }
    let p3 = p2 + s3;
    lemma_chain::<SpecSettingsResponse>(p2, s3, x0, x3, x4);
    let x5 = SpecSettingsResponse { model: m.model, vision_model: m.vision_model, compress_model: m.compress_model, template: m.template, api_key: m.api_key, base_url: Seq::empty(), compress_base_url: Seq::empty(), reasoning_effort: Seq::empty(), compress_reasoning_effort: Seq::empty(), compression_level: Seq::empty(), color_scheme: Seq::empty(), transparency: Seq::empty(), blur_intensity: Seq::empty(), autoupdate_enabled: false, autoupdate_repo: Seq::empty(), autoupdate_branch: Seq::empty(), autoupdate_check_interval_secs: 0u64, autoupdate_command: Seq::empty(), autoupdate_last_seen_sha: Seq::empty(), daily_time_zone: Seq::empty(), daily_update_time: Seq::empty(), max_active_cards: 0u64, grounding_strategy: Seq::empty(), image_strategy: Seq::empty(), search_provider: Seq::empty(), scrape_provider: Seq::empty(), search_api_key: Seq::empty(), search_base_url: Seq::empty(), image_sources: Seq::empty(), grounding_model: Seq::empty(), grounding_reasoning_effort: Seq::empty() };
    let s4 = seg_str(5, m.api_key);
    assert(merge_fields(s4, x4) == Some(x5) && fields_wf(s4)) by {
        if m.api_key.len() == 0 { assert(m.api_key =~= Seq::<char>::empty()); lemma_seg_empty::<SpecSettingsResponse>(x4); } else { lemma_seg_len::<SpecSettingsResponse>(5, encode_utf8(m.api_key), x4); }
    }
    let p4 = p3 + s4;
    lemma_chain::<SpecSettingsResponse>(p3, s4, x0, x4, x5);
    let x6 = SpecSettingsResponse { model: m.model, vision_model: m.vision_model, compress_model: m.compress_model, template: m.template, api_key: m.api_key, base_url: m.base_url, compress_base_url: Seq::empty(), reasoning_effort: Seq::empty(), compress_reasoning_effort: Seq::empty(), compression_level: Seq::empty(), color_scheme: Seq::empty(), transparency: Seq::empty(), blur_intensity: Seq::empty(), autoupdate_enabled: false, autoupdate_repo: Seq::empty(), autoupdate_branch: Seq::empty(), autoupdate_check_interval_secs: 0u64, autoupdate_command: Seq::empty(), autoupdate_last_seen_sha: Seq::empty(), daily_time_zone: Seq::empty(), daily_update_time: Seq::empty(), max_active_cards: 0u64, grounding_strategy: Seq::empty(), image_strategy: Seq::empty(), search_provider: Seq::empty(), scrape_provider: Seq::empty(), search_api_key: Seq::empty(), search_base_url: Seq::empty(), image_sources: Seq::empty(), grounding_model: Seq::empty(), grounding_reasoning_effort: Seq::empty() };
    let s5 = seg_str(6, m.base_url);
    assert(merge_fields(s5, x5) == Some(x6) && fields_wf(s5)) by {
        if m.base_url.len() == 0 { assert(m.base_url =~= Seq::<char>::empty()); lemma_seg_empty::<SpecSettingsResponse>(x5); } else { lemma_seg_len::<SpecSettingsResponse>(6, encode_utf8(m.base_url), x5); }
    }
    let p5 = p4 + s5;
    lemma_chain::<SpecSettingsResponse>(p4, s5, x0, x5, x6);
    let x7 = SpecSettingsResponse { model: m.model, vision_model: m.vision_model, compress_model: m.compress_model, template: m.template, api_key: m.api_key, base_url: m.base_url, compress_base_url: m.compress_base_url, reasoning_effort: Seq::empty(), compress_reasoning_effort: Seq::empty(), compression_level: Seq::empty(), color_scheme: Seq::empty(), transparency: Seq::empty(), blur_intensity: Seq::empty(), autoupdate_enabled: false, autoupdate_repo: Seq::empty(), autoupdate_branch: Seq::empty(), autoupdate_check_interval_secs: 0u64, autoupdate_command: Seq::empty(), autoupdate_last_seen_sha: Seq::empty(), daily_time_zone: Seq::empty(), daily_update_time: Seq::empty(), max_active_cards: 0u64, grounding_strategy: Seq::empty(), image_strategy: Seq::empty(), search_provider: Seq::empty(), scrape_provider: Seq::empty(), search_api_key: Seq::empty(), search_base_url: Seq::empty(), image_sources: Seq::empty(), grounding_model: Seq::empty(), grounding_reasoning_effort: Seq::empty() };
    let s6 = seg_str(7, m.compress_base_url);
    assert(merge_fields(s6, x6) == Some(x7) && fields_wf(s6)) by {
        if m.compress_base_url.len() == 0 { assert(m.compress_base_url =~= Seq::<char>::empty()); lemma_seg_empty::<SpecSettingsResponse>(x6); } else { lemma_seg_len::<SpecSettingsResponse>(7, encode_utf8(m.compress_base_url), x6); }
    }
    let p6 = p5 + s6;
    lemma_chain::<SpecSettingsResponse>(p5, s6, x0, x6, x7);
    let x8 = SpecSettingsResponse { model: m.model, vision_model: m.vision_model, compress_model: m.compress_model, template: m.template, api_key: m.api_key, base_url: m.base_url, compress_base_url: m.compress_base_url, reasoning_effort: m.reasoning_effort, compress_reasoning_effort: Seq::empty(), compression_level: Seq::empty(), color_scheme: Seq::empty(), transparency: Seq::empty(), blur_intensity: Seq::empty(), autoupdate_enabled: false, autoupdate_repo: Seq::empty(), autoupdate_branch: Seq::empty(), autoupdate_check_interval_secs: 0u64, autoupdate_command: Seq::empty(), autoupdate_last_seen_sha: Seq::empty(), daily_time_zone: Seq::empty(), daily_update_time: Seq::empty(), max_active_cards: 0u64, grounding_strategy: Seq::empty(), image_strategy: Seq::empty(), search_provider: Seq::empty(), scrape_provider: Seq::empty(), search_api_key: Seq::empty(), search_base_url: Seq::empty(), image_sources: Seq::empty(), grounding_model: Seq::empty(), grounding_reasoning_effort: Seq::empty() };
    let s7 = seg_str(8, m.reasoning_effort);
    assert(merge_fields(s7, x7) == Some(x8) && fields_wf(s7)) by {
        if m.reasoning_effort.len() == 0 { assert(m.reasoning_effort =~= Seq::<char>::empty()); lemma_seg_empty::<SpecSettingsResponse>(x7); } else { lemma_seg_len::<SpecSettingsResponse>(8, encode_utf8(m.reasoning_effort), x7); }
    }
    let p7 = p6 + s7;
    lemma_chain::<SpecSettingsResponse>(p6, s7, x0, x7, x8);
}

proof fn lemma_round_settings_response_part1(m: SpecSettingsResponse)
    requires
        m.wf(),
    ensures
        merge_fields(m.fields_part1(), SpecSettingsResponse { model: m.model, vision_model: m.vision_model, compress_model: m.compress_model, template: m.template, api_key: m.api_key, base_url: m.base_url, compress_base_url: m.compress_base_url, reasoning_effort: m.reasoning_effort, compress_reasoning_effort: Seq::empty(), compression_level: Seq::empty(), color_scheme: Seq::empty(), transparency: Seq::empty(), blur_intensity: Seq::empty(), autoupdate_enabled: false, autoupdate_repo: Seq::empty(), autoupdate_branch: Seq::empty(), autoupdate_check_interval_secs: 0u64, autoupdate_command: Seq::empty(), autoupdate_last_seen_sha: Seq::empty(), daily_time_zone: Seq::empty(), daily_update_time: Seq::empty(), max_active_cards: 0u64, grounding_strategy: Seq::empty(), image_strategy: Seq::empty(), search_provider: Seq::empty(), scrape_provider: Seq::empty(), search_api_key: Seq::empty(), search_base_url: Seq::empty(), image_sources: Seq::empty(), grounding_model: Seq::empty(), grounding_reasoning_effort: Seq::empty() }) == Some(SpecSettingsResponse { model: m.model, vision_model: m.vision_model, compress_model: m.compress_model, template: m.template, api_key: m.api_key, base_url: m.base_url, compress_base_url: m.compress_base_url, reasoning_effort: m.reasoning_effort, compress_reasoning_effort: m.compress_reasoning_effort, compression_level: m.compression_level, color_scheme: m.color_scheme, transparency: m.transparency, blur_intensity: m.blur_intensity, autoupdate_enabled: m.autoupdate_enabled, autoupdate_repo: m.autoupdate_repo, autoupdate_branch: m.autoupdate_branch, autoupdate_check_interval_secs: 0u64, autoupdate_command: Seq::empty(), autoupdate_last_seen_sha: Seq::empty(), daily_time_zone: Seq::empty(), daily_update_time: Seq::empty(), max_active_cards: 0u64, grounding_strategy: Seq::empty(), image_strategy: Seq::empty(), search_provider: Seq::empty(), scrape_provider: Seq::empty(), search_api_key: Seq::empty(), search_base_url: Seq::empty(), image_sources: Seq::empty(), grounding_model: Seq::empty(), grounding_reasoning_effort: Seq::empty() }),
        fields_wf(m.fields_part1()),
{
    reveal(SpecSettingsResponse::fields_part1);
    reveal(SpecSettingsResponse::wf);
    let x8 = SpecSettingsResponse { model: m.model, vision_model: m.vision_model, compress_model: m.compress_model, template: m.template, api_key: m.api_key, base_url: m.base_url, compress_base_url: m.compress_base_url, reasoning_effort: m.reasoning_effort, compress_reasoning_effort: Seq::empty(), compression_level: Seq::empty(), color_scheme: Seq::empty(), transparency: Seq::empty(), blur_intensity: Seq::empty(), autoupdate_enabled: false, autoupdate_repo: Seq::empty(), autoupdate_branch: Seq::empty(), autoupdate_check_interval_secs: 0u64, autoupdate_command: Seq::empty(), autoupdate_last_seen_sha: Seq::empty(), daily_time_zone: Seq::empty(), daily_update_time: Seq::empty(), max_active_cards: 0u64, grounding_strategy: Seq::empty(), image_strategy: Seq::empty(), search_provider: Seq::empty(), scrape_provider: Seq::empty(), search_api_key: Seq::empty(), search_base_url: Seq::empty(), image_sources: Seq::empty(), grounding_model: Seq::empty(), grounding_reasoning_effort: Seq::empty() };
    let x9 = SpecSettingsResponse { model: m.model, vision_model: m.vision_model, compress_model: m.compress_model, template: m.template, api_key: m.api_key, base_url: m.base_url, compress_base_url: m.compress_base_url, reasoning_effort: m.reasoning_effort, compress_reasoning_effort: m.compress_reasoning_effort, compression_level: Seq::empty(), color_scheme: Seq::empty(), transparency: Seq::empty(), blur_intensity: Seq::empty(), autoupdate_enabled: false, autoupdate_repo: Seq::empty(), autoupdate_branch: Seq::empty(), autoupdate_check_interval_secs: 0u64, autoupdate_command: Seq::empty(), autoupdate_last_seen_sha: Seq::empty(), daily_time_zone: Seq::empty(), daily_update_time: Seq::empty(), max_active_cards: 0u64, grounding_strategy: Seq::empty(), image_strategy: Seq::empty(), search_provider: Seq::empty(), scrape_provider: Seq::empty(), search_api_key: Seq::empty(), search_base_url: Seq::empty(), image_sources: Seq::empty(), grounding_model: Seq::empty(), grounding_reasoning_effort: Seq::empty() };
    let s0 = seg_str(9, m.compress_reasoning_effort);
    assert(merge_fields(s0, x8) == Some(x9) && fields_wf(s0)) by {
        if m.compress_reasoning_effort.len() == 0 { assert(m.compress_reasoning_effort =~= Seq::<char>::empty()); lemma_seg_empty::<SpecSettingsResponse>(x8); } else { lemma_seg_len::<SpecSettingsResponse>(9, encode_utf8(m.compress_reasoning_effort), x8); }
    }
    let p0 = s0;
    let x10 = SpecSettingsResponse { model: m.model, vision_model: m.vision_model, compress_model: m.compress_model, template: m.template, api_key: m.api_key, base_url: m.base_url, compress_base_url: m.compress_base_url, reasoning_effort: m.reasoning_effort, compress_reasoning_effort: m.compress_reasoning_effort, compression_level: m.compression_level, color_scheme: Seq::empty(), transparency: Seq::empty(), blur_intensity: Seq::empty(), autoupdate_enabled: false, autoupdate_repo: Seq::empty(), autoupdate_branch: Seq::empty(), autoupdate_check_interval_secs: 0u64, autoupdate_command: Seq::empty(), autoupdate_last_seen_sha: Seq::empty(), daily_time_zone: Seq::empty(), daily_update_time: Seq::empty(), max_active_cards: 0u64, grounding_strategy: Seq::empty(), image_strategy: Seq::empty(), search_provider: Seq::empty(), scrape_provider: Seq::empty(), search_api_key: Seq::empty(), search_base_url: Seq::empty(), image_sources: Seq::empty(), grounding_model: Seq::empty(), grounding_reasoning_effort: Seq::empty() };
    let s1 = seg_str(10, m.compression_level);
    assert(merge_fields(s1, x9) == Some(x10) && fields_wf(s1)) by {
        if m.compression_level.len() == 0 { assert(m.compression_level =~= Seq::<char>::empty()); lemma_seg_empty::<SpecSettingsResponse>(x9); } else { lemma_seg_len::<SpecSettingsResponse>(10, encode_utf8(m.compression_level), x9); }
    }
    let p1 = p0 + s1;
    lemma_chain::<SpecSettingsResponse>(p0, s1, x8, x9, x10);
    let x11 = SpecSettingsResponse { model: m.model, vision_model: m.vision_model, compress_model: m.compress_model, template: m.template, api_key: m.api_key, base_url: m.base_url, compress_base_url: m.compress_base_url, reasoning_effort: m.reasoning_effort, compress_reasoning_effort: m.compress_reasoning_effort, compression_level: m.compression_level, color_scheme: m.color_scheme, transparency: Seq::empty(), blur_intensity: Seq::empty(), autoupdate_enabled: false, autoupdate_repo: Seq::empty(), autoupdate_branch: Seq::empty(), autoupdate_check_interval_secs: 0u64, autoupdate_command: Seq::empty(), autoupdate_last_seen_sha: Seq::empty(), daily_time_zone: Seq::empty(), daily_update_time: Seq::empty(), max_active_cards: 0u64, grounding_strategy: Seq::empty(), image_strategy: Seq::empty(), search_provider: Seq::empty(), scrape_provider: Seq::empty(), search_api_key: Seq::empty(), search_base_url: Seq::empty(), image_sources: Seq::empty(), grounding_model: Seq::empty(), grounding_reasoning_effort: Seq::empty() };
    let s2 = seg_str(11, m.color_scheme);
    assert(merge_fields(s2, x10) == Some(x11) && fields_wf(s2)) by {
        if m.color_scheme.len() == 0 { assert(m.color_scheme =~= Seq::<char>::empty()); lemma_seg_empty::<SpecSettingsResponse>(x10); } else { lemma_seg_len::<SpecSettingsResponse>(11, encode_utf8(m.color_scheme), x10); }
    }
    let p2 = p1 + s2;
    lemma_chain::<SpecSettingsResponse>(p1, s2, x8, x10, x11);
    let x12 = SpecSettingsResponse { model: m.model, vision_model: m.vision_model, compress_model: m.compress_model, template: m.template, api_key: m.api_key, base_url: m.base_url, compress_base_url: m.compress_base_url, reasoning_effort: m.reasoning_effort, compress_reasoning_effort: m.compress_reasoning_effort, compression_level: m.compression_level, color_scheme: m.color_scheme, transparency: m.transparency, blur_intensity: Seq::empty(), autoupdate_enabled: false, autoupdate_repo: Seq::empty(), autoupdate_branch: Seq::empty(), autoupdate_check_interval_secs: 0u64, autoupdate_command: Seq::empty(), autoupdate_last_seen_sha: Seq::empty(), daily_time_zone: Seq::empty(), daily_update_time: Seq::empty(), max_active_cards: 0u64, grounding_strategy: Seq::empty(), image_strategy: Seq::empty(), search_provider: Seq::empty(), scrape_provider: Seq::empty(), search_api_key: Seq::empty(), search_base_url: Seq::empty(), image_sources: Seq::empty(), grounding_model: Seq::empty(), grounding_reasoning_effort: Seq::empty() };
    let s3 = seg_str(12, m.transparency);
    assert(merge_fields(s3, x11) == Some(x12) && fields_wf(s3)) by {
        if m.transparency.len() == 0 { assert(m.transparency =~= Seq::<char>::empty()); lemma_seg_empty::<SpecSettingsResponse>(x11); } else { lemma_seg_len::<SpecSettingsResponse>(12, encode_utf8(m.transparency), x11); }
    }
    let p3 = p2 + s3;
    lemma_chain::<SpecSettingsResponse>(p2, s3, x8, x11, x12);
    let x13 = SpecSettingsResponse { model: m.model, vision_model: m.vision_model, compress_model: m.compress_model, template: m.template, api_key: m.api_key, base_url: m.base_url, compress_base_url: m.compress_base_url, reasoning_effort: m.reasoning_effort, compress_reasoning_effort: m.compress_reasoning_effort, compression_level: m.compression_level, color_scheme: m.color_scheme, transparency: m.transparency, blur_intensity: m.blur_intensity, autoupdate_enabled: false, autoupdate_repo: Seq::empty(), autoupdate_branch: Seq::empty(), autoupdate_check_interval_secs: 0u64, autoupdate_command: Seq::empty(), autoupdate_last_seen_sha: Seq::empty(), daily_time_zone: Seq::empty(), daily_update_time: Seq::empty(), max_active_cards: 0u64, grounding_strategy: Seq::empty(), image_strategy: Seq::empty(), search_provider: Seq::empty(), scrape_provider: Seq::empty(), search_api_key: Seq::empty(), search_base_url: Seq::empty(), image_sources: Seq::empty(), grounding_model: Seq::empty(), grounding_reasoning_effort: Seq::empty() };
    let s4 = seg_str(13, m.blur_intensity);
    assert(merge_fields(s4, x12) == Some(x13) && fields_wf(s4)) by {
        if m.blur_intensity.len() == 0 { assert(m.blur_intensity =~= Seq::<char>::empty()); lemma_seg_empty::<SpecSettingsResponse>(x12); } else { lemma_seg_len::<SpecSettingsResponse>(13, encode_utf8(m.blur_intensity), x12); }
    }
    let p4 = p3 + s4;
    lemma_chain::<SpecSettingsResponse>(p3, s4, x8, x12, x13);
    let x14 = SpecSettingsResponse { model: m.model, vision_model: m.vision_model, compress_model: m.compress_model, template: m.template, api_key: m.api_key, base_url: m.base_url, compress_base_url: m.compress_base_url, reasoning_effort: m.reasoning_effort, compress_reasoning_effort: m.compress_reasoning_effort, compression_level: m.compression_level, color_scheme: m.color_scheme, transparency: m.transparency, blur_intensity: m.blur_intensity, autoupdate_enabled: m.autoupdate_enabled, autoupdate_repo: Seq::empty(), autoupdate_branch: Seq::empty(), autoupdate_check_interval_secs: 0u64, autoupdate_command: Seq::empty(), autoupdate_last_seen_sha: Seq::empty(), daily_time_zone: Seq::empty(), daily_update_time: Seq::empty(), max_active_cards: 0u64, grounding_strategy: Seq::empty(), image_strategy: Seq::empty(), search_provider: Seq::empty(), scrape_provider: Seq::empty(), search_api_key: Seq::empty(), search_base_url: Seq::empty(), image_sources: Seq::empty(), grounding_model: Seq::empty(), grounding_reasoning_effort: Seq::empty() };
    let s5 = seg_bool(14, m.autoupdate_enabled);
    assert(merge_fields(s5, x13) == Some(x14) && fields_wf(s5)) by {
        lemma_seg_u64::<SpecSettingsResponse>(14, if m.autoupdate_enabled { 1u64 } else { 0u64 }, x13);
    }
    let p5 = p4 + s5;
    lemma_chain::<SpecSettingsResponse>(p4, s5, x8, x13, x14);
    let x15 = SpecSettingsResponse { model: m.model, vision_model: m.vision_model, compress_model: m.compress_model, template: m.template, api_key: m.api_key, base_url: m.base_url, compress_base_url: m.compress_base_url, reasoning_effort: m.reasoning_effort, compress_reasoning_effort: m.compress_reasoning_effort, compression_level: m.compression_level, color_scheme: m.color_scheme, transparency: m.transparency, blur_intensity: m.blur_intensity, autoupdate_enabled: m.autoupdate_enabled, autoupdate_repo: m.autoupdate_repo, autoupdate_branch: Seq::empty(), autoupdate_check_interval_secs: 0u64, autoupdate_command: Seq::empty(), autoupdate_last_seen_sha: Seq::empty(), daily_time_zone: Seq::empty(), daily_update_time: Seq::empty(), max_active_cards: 0u64, grounding_strategy: Seq::empty(), image_strategy: Seq::empty(), search_provider: Seq::empty(), scrape_provider: Seq::empty(), search_api_key: Seq::empty(), search_base_url: Seq::empty(), image_sources: Seq::empty(), grounding_model: Seq::empty(), grounding_reasoning_effort: Seq::empty() };
    let s6 = seg_str(15, m.autoupdate_repo);
    assert(merge_fields(s6, x14) == Some(x15) && fields_wf(s6)) by {
        if m.autoupdate_repo.len() == 0 { assert(m.autoupdate_repo =~= Seq::<char>::empty()); lemma_seg_empty::<SpecSettingsResponse>(x14); } else { lemma_seg_len::<SpecSettingsResponse>(15, encode_utf8(m.autoupdate_repo), x14); }
    }
    let p6 = p5 + s6;
    lemma_chain::<SpecSettingsResponse>(p5, s6, x8, x14, x15);
    let x16 = SpecSettingsResponse { model: m.model, vision_model: m.vision_model, compress_model: m.compress_model, template: m.template, api_key: m.api_key, base_url: m.base_url, compress_base_url: m.compress_base_url, reasoning_effort: m.reasoning_effort, compress_reasoning_effort: m.compress_reasoning_effort, compression_level: m.compression_level, color_scheme: m.color_scheme, transparency: m.transparency, blur_intensity: m.blur_intensity, autoupdate_enabled: m.autoupdate_enabled, autoupdate_repo: m.autoupdate_repo, autoupdate_branch: m.autoupdate_branch, autoupdate_check_interval_secs: 0u64, autoupdate_command: Seq::empty(), autoupdate_last_seen_sha: Seq::empty(), daily_time_zone: Seq::empty(), daily_update_time: Seq::empty(), max_active_cards: 0u64, grounding_strategy: Seq::empty(), image_strategy: Seq::empty(), search_provider: Seq::empty(), scrape_provider: Seq::empty(), search_api_key: Seq::empty(), search_base_url: Seq::empty(), image_sources: Seq::empty(), grounding_model: Seq::empty(), grounding_reasoning_effort: Seq::empty() };
    let s7 = seg_str(16, m.autoupdate_branch);
    assert(merge_fields(s7, x15) == Some(x16) && fields_wf(s7)) by {
        if m.autoupdate_branch.len() == 0 { assert(m.autoupdate_branch =~= Seq::<char>::empty()); lemma_seg_empty::<SpecSettingsResponse>(x15); } else { lemma_seg_len::<SpecSettingsResponse>(16, encode_utf8(m.autoupdate_branch), x15); }
    }
    let p7 = p6 + s7;
    lemma_chain::<SpecSettingsResponse>(p6, s7, x8, x15, x16);
}

proof fn lemma_round_settings_response_part2(m: SpecSettingsResponse)
    requires
        m.wf(),
    ensures
        merge_fields(m.fields_part2(), SpecSettingsResponse { model: m.model, vision_model: m.vision_model, compress_model: m.compress_model, template: m.template, api_key: m.api_key, base_url: m.base_url, compress_base_url: m.compress_base_url, reasoning_effort: m.reasoning_effort, compress_reasoning_effort: m.compress_reasoning_effort, compression_level: m.compression_level, color_scheme: m.color_scheme, transparency: m.transparency, blur_intensity: m.blur_intensity, autoupdate_enabled: m.autoupdate_enabled, autoupdate_repo: m.autoupdate_repo, autoupdate_branch: m.autoupdate_branch, autoupdate_check_interval_secs: 0u64, autoupdate_command: Seq::empty(), autoupdate_last_seen_sha: Seq::empty(), daily_time_zone: Seq::empty(), daily_update_time: Seq::empty(), max_active_cards: 0u64, grounding_strategy: Seq::empty(), image_strategy: Seq::empty(), search_provider: Seq::empty(), scrape_provider: Seq::empty(), search_api_key: Seq::empty(), search_base_url: Seq::empty(), image_sources: Seq::empty(), grounding_model: Seq::empty(), grounding_reasoning_effort: Seq::empty() }) == Some(SpecSettingsResponse { model: m.model, vision_model: m.vision_model, compress_model: m.compress_model, template: m.template, api_key: m.api_key, base_url: m.base_url, compress_base_url: m.compress_base_url, reasoning_effort: m.reasoning_effort, compress_reasoning_effort: m.compress_reasoning_effort, compression_level: m.compression_level, color_scheme: m.color_scheme, transparency: m.transparency, blur_intensity: m.blur_intensity, autoupdate_enabled: m.autoupdate_enabled, autoupdate_repo: m.autoupdate_repo, autoupdate_branch: m.autoupdate_branch, autoupdate_check_interval_secs: m.autoupdate_check_interval_secs, autoupdate_command: m.autoupdate_command, autoupdate_last_seen_sha: m.autoupdate_last_seen_sha, daily_time_zone: m.daily_time_zone, daily_update_time: m.daily_update_time, max_active_cards: m.max_active_cards, grounding_strategy: m.grounding_strategy, image_strategy: m.image_strategy, search_provider: Seq::empty(), scrape_provider: Seq::empty(), search_api_key: Seq::empty(), search_base_url: Seq::empty(), image_sources: Seq::empty(), grounding_model: Seq::empty(), grounding_reasoning_effort: Seq::empty() }),
        fields_wf(m.fields_part2()),
{
    reveal(SpecSettingsResponse::fields_part2);
    reveal(SpecSettingsResponse::wf);
    let x16 = SpecSettingsResponse { model: m.model, vision_model: m.vision_model, compress_model: m.compress_model, template: m.template, api_key: m.api_key, base_url: m.base_url, compress_base_url: m.compress_base_url, reasoning_effort: m.reasoning_effort, compress_reasoning_effort: m.compress_reasoning_effort, compression_level: m.compression_level, color_scheme: m.color_scheme, transparency: m.transparency, blur_intensity: m.blur_intensity, autoupdate_enabled: m.autoupdate_enabled, autoupdate_repo: m.autoupdate_repo, autoupdate_branch: m.autoupdate_branch, autoupdate_check_interval_secs: 0u64, autoupdate_command: Seq::empty(), autoupdate_last_seen_sha: Seq::empty(), daily_time_zone: Seq::empty(), daily_update_time: Seq::empty(), max_active_cards: 0u64, grounding_strategy: Seq::empty(), image_strategy: Seq::empty(), search_provider: Seq::empty(), scrape_provider: Seq::empty(), search_api_key: Seq::empty(), search_base_url: Seq::empty(), image_sources: Seq::empty(), grounding_model: Seq::empty(), grounding_reasoning_effort: Seq::empty() };
    let x17 = SpecSettingsResponse { model: m.model, vision_model: m.vision_model, compress_model: m.compress_model, template: m.template, api_key: m.api_key, base_url: m.base_url, compress_base_url: m.compress_base_url, reasoning_effort: m.reasoning_effort, compress_reasoning_effort: m.compress_reasoning_effort, compression_level: m.compression_level, color_scheme: m.color_scheme, transparency: m.transparency, blur_intensity: m.blur_intensity, autoupdate_enabled: m.autoupdate_enabled, autoupdate_repo: m.autoupdate_repo, autoupdate_branch: m.autoupdate_branch, autoupdate_check_interval_secs: m.autoupdate_check_interval_secs, autoupdate_command: Seq::empty(), autoupdate_last_seen_sha: Seq::empty(), daily_time_zone: Seq::empty(), daily_update_time: Seq::empty(), max_active_cards: 0u64, grounding_strategy: Seq::empty(), image_strategy: Seq::empty(), search_provider: Seq::empty(), scrape_provider: Seq::empty(), search_api_key: Seq::empty(), search_base_url: Seq::empty(), image_sources: Seq::empty(), grounding_model: Seq::empty(), grounding_reasoning_effort: Seq::empty() };
    let s0 = seg_u64(17, m.autoupdate_check_interval_secs);
    assert(merge_fields(s0, x16) == Some(x17) && fields_wf(s0)) by {
        lemma_seg_u64::<SpecSettingsResponse>(17, m.autoupdate_check_interval_secs, x16);
    }
    let p0 = s0;
    let x18 = SpecSettingsResponse { model: m.model, vision_model: m.vision_model, compress_model: m.compress_model, template: m.template, api_key: m.api_key, base_url: m.base_url, compress_base_url: m.compress_base_url, reasoning_effort: m.reasoning_effort, compress_reasoning_effort: m.compress_reasoning_effort, compression_level: m.compression_level, color_scheme: m.color_scheme, transparency: m.transparency, blur_intensity: m.blur_intensity, autoupdate_enabled: m.autoupdate_enabled, autoupdate_repo: m.autoupdate_repo, autoupdate_branch: m.autoupdate_branch, autoupdate_check_interval_secs: m.autoupdate_check_interval_secs, autoupdate_command: m.autoupdate_command, autoupdate_last_seen_sha: Seq::empty(), daily_time_zone: Seq::empty(), daily_update_time: Seq::empty(), max_active_cards: 0u64, grounding_strategy: Seq::empty(), image_strategy: Seq::empty(), search_provider: Seq::empty(), scrape_provider: Seq::empty(), search_api_key: Seq::empty(), search_base_url: Seq::empty(), image_sources: Seq::empty(), grounding_model: Seq::empty(), grounding_reasoning_effort: Seq::empty() };
    let s1 = seg_str(18, m.autoupdate_command);
    assert(merge_fields(s1, x17) == Some(x18) && fields_wf(s1)) by {
        if m.autoupdate_command.len() == 0 { assert(m.autoupdate_command =~= Seq::<char>::empty()); lemma_seg_empty::<SpecSettingsResponse>(x17); } else { lemma_seg_len::<SpecSettingsResponse>(18, encode_utf8(m.autoupdate_command), x17); }
    }
    let p1 = p0 + s1;
    lemma_chain::<SpecSettingsResponse>(p0, s1, x16, x17, x18);
    let x19 = SpecSettingsResponse { model: m.model, vision_model: m.vision_model, compress_model: m.compress_model, template: m.template, api_key: m.api_key, base_url: m.base_url, compress_base_url: m.compress_base_url, reasoning_effort: m.reasoning_effort, compress_reasoning_effort: m.compress_reasoning_effort, compression_level: m.compression_level, color_scheme: m.color_scheme, transparency: m.transparency, blur_intensity: m.blur_intensity, autoupdate_enabled: m.autoupdate_enabled, autoupdate_repo: m.autoupdate_repo, autoupdate_branch: m.autoupdate_branch, autoupdate_check_interval_secs: m.autoupdate_check_interval_secs, autoupdate_command: m.autoupdate_command, autoupdate_last_seen_sha: m.autoupdate_last_seen_sha, daily_time_zone: Seq::empty(), daily_update_time: Seq::empty(), max_active_cards: 0u64, grounding_strategy: Seq::empty(), image_strategy: Seq::empty(), search_provider: Seq::empty(), scrape_provider: Seq::empty(), search_api_key: Seq::empty(), search_base_url: Seq::empty(), image_sources: Seq::empty(), grounding_model: Seq::empty(), grounding_reasoning_effort: Seq::empty() };
    let s2 = seg_str(19, m.autoupdate_last_seen_sha);
    assert(merge_fields(s2, x18) == Some(x19) && fields_wf(s2)) by {
        if m.autoupdate_last_seen_sha.len() == 0 { assert(m.autoupdate_last_seen_sha =~= Seq::<char>::empty()); lemma_seg_empty::<SpecSettingsResponse>(x18); } else { lemma_seg_len::<SpecSettingsResponse>(19, encode_utf8(m.autoupdate_last_seen_sha), x18); }
    }
    let p2 = p1 + s2;
    lemma_chain::<SpecSettingsResponse>(p1, s2, x16, x18, x19);
    let x20 = SpecSettingsResponse { model: m.model, vision_model: m.vision_model, compress_model: m.compress_model, template: m.template, api_key: m.api_key, base_url: m.base_url, compress_base_url: m.compress_base_url, reasoning_effort: m.reasoning_effort, compress_reasoning_effort: m.compress_reasoning_effort, compression_level: m.compression_level, color_scheme: m.color_scheme, transparency: m.transparency, blur_intensity: m.blur_intensity, autoupdate_enabled: m.autoupdate_enabled, autoupdate_repo: m.autoupdate_repo, autoupdate_branch: m.autoupdate_branch, autoupdate_check_interval_secs: m.autoupdate_check_interval_secs, autoupdate_command: m.autoupdate_command, autoupdate_last_seen_sha: m.autoupdate_last_seen_sha, daily_time_zone: m.daily_time_zone, daily_update_time: Seq::empty(), max_active_cards: 0u64, grounding_strategy: Seq::empty(), image_strategy: Seq::empty(), search_provider: Seq::empty(), scrape_provider: Seq::empty(), search_api_key: Seq::empty(), search_base_url: Seq::empty(), image_sources: Seq::empty(), grounding_model: Seq::empty(), grounding_reasoning_effort: Seq::empty() };
    let s3 = seg_str(20, m.daily_time_zone);
    assert(merge_fields(s3, x19) == Some(x20) && fields_wf(s3)) by {
        if m.daily_time_zone.len() == 0 { assert(m.daily_time_zone =~= Seq::<char>::empty()); lemma_seg_empty::<SpecSettingsResponse>(x19); } else { lemma_seg_len::<SpecSettingsResponse>(20, encode_utf8(m.daily_time_zone), x19); }
    }
    let p3 = p2 + s3;
    lemma_chain::<SpecSettingsResponse>(p2, s3, x16, x19, x20);
    let x21 = SpecSettingsResponse { model: m.model, vision_model: m.vision_model, compress_model: m.compress_model, template: m.template, api_key: m.api_key, base_url: m.base_url, compress_base_url: m.compress_base_url, reasoning_effort: m.reasoning_effort, compress_reasoning_effort: m.compress_reasoning_effort, compression_level: m.compression_level, color_scheme: m.color_scheme, transparency: m.transparency, blur_intensity: m.blur_intensity, autoupdate_enabled: m.autoupdate_enabled, autoupdate_repo: m.autoupdate_repo, autoupdate_branch: m.autoupdate_branch, autoupdate_check_interval_secs: m.autoupdate_check_interval_secs, autoupdate_command: m.autoupdate_command, autoupdate_last_seen_sha: m.autoupdate_last_seen_sha, daily_time_zone: m.daily_time_zone, daily_update_time: m.daily_update_time, max_active_cards: 0u64, grounding_strategy: Seq::empty(), image_strategy: Seq::empty(), search_provider: Seq::empty(), scrape_provider: Seq::empty(), search_api_key: Seq::empty(), search_base_url: Seq::empty(), image_sources: Seq::empty(), grounding_model: Seq::empty(), grounding_reasoning_effort: Seq::empty() };
    let s4 = seg_str(21, m.daily_update_time);
    assert(merge_fields(s4, x20) == Some(x21) && fields_wf(s4)) by {
        if m.daily_update_time.len() == 0 { assert(m.daily_update_time =~= Seq::<char>::empty()); lemma_seg_empty::<SpecSettingsResponse>(x20); } else { lemma_seg_len::<SpecSettingsResponse>(21, encode_utf8(m.daily_update_time), x20); }
    }
    let p4 = p3 + s4;
    lemma_chain::<SpecSettingsResponse>(p3, s4, x16, x20, x21);
    let x22 = SpecSettingsResponse { model: m.model, vision_model: m.vision_model, compress_model: m.compress_model, template: m.template, api_key: m.api_key, base_url: m.base_url, compress_base_url: m.compress_base_url, reasoning_effort: m.reasoning_effort, compress_reasoning_effort: m.compress_reasoning_effort, compression_level: m.compression_level, color_scheme: m.color_scheme, transparency: m.transparency, blur_intensity: m.blur_intensity, autoupdate_enabled: m.autoupdate_enabled, autoupdate_repo: m.autoupdate_repo, autoupdate_branch: m.autoupdate_branch, autoupdate_check_interval_secs: m.autoupdate_check_interval_secs, autoupdate_command: m.autoupdate_command, autoupdate_last_seen_sha: m.autoupdate_last_seen_sha, daily_time_zone: m.daily_time_zone, daily_update_time: m.daily_update_time, max_active_cards: m.max_active_cards, grounding_strategy: Seq::empty(), image_strategy: Seq::empty(), search_provider: Seq::empty(), scrape_provider: Seq::empty(), search_api_key: Seq::empty(), search_base_url: Seq::empty(), image_sources: Seq::empty(), grounding_model: Seq::empty(), grounding_reasoning_effort: Seq::empty() };
    let s5 = seg_u64(22, m.max_active_cards);
    assert(merge_fields(s5, x21) == Some(x22) && fields_wf(s5)) by {
        lemma_seg_u64::<SpecSettingsResponse>(22, m.max_active_cards, x21);
    }
    let p5 = p4 + s5;
    lemma_chain::<SpecSettingsResponse>(p4, s5, x16, x21, x22);
    let x23 = SpecSettingsResponse { model: m.model, vision_model: m.vision_model, compress_model: m.compress_model, template: m.template, api_key: m.api_key, base_url: m.base_url, compress_base_url: m.compress_base_url, reasoning_effort: m.reasoning_effort, compress_reasoning_effort: m.compress_reasoning_effort, compression_level: m.compression_level, color_scheme: m.color_scheme, transparency: m.transparency, blur_intensity: m.blur_intensity, autoupdate_enabled: m.autoupdate_enabled, autoupdate_repo: m.autoupdate_repo, autoupdate_branch: m.autoupdate_branch, autoupdate_check_interval_secs: m.autoupdate_check_interval_secs, autoupdate_command: m.autoupdate_command, autoupdate_last_seen_sha: m.autoupdate_last_seen_sha, daily_time_zone: m.daily_time_zone, daily_update_time: m.daily_update_time, max_active_cards: m.max_active_cards, grounding_strategy: m.grounding_strategy, image_strategy: Seq::empty(), search_provider: Seq::empty(), scrape_provider: Seq::empty(), search_api_key: Seq::empty(), search_base_url: Seq::empty(), image_sources: Seq::empty(), grounding_model: Seq::empty(), grounding_reasoning_effort: Seq::empty() };
    let s6 = seg_str(23, m.grounding_strategy);
    assert(merge_fields(s6, x22) == Some(x23) && fields_wf(s6)) by {
        if m.grounding_strategy.len() == 0 { assert(m.grounding_strategy =~= Seq::<char>::empty()); lemma_seg_empty::<SpecSettingsResponse>(x22); } else { lemma_seg_len::<SpecSettingsResponse>(23, encode_utf8(m.grounding_strategy), x22); }
    }
    let p6 = p5 + s6;
    lemma_chain::<SpecSettingsResponse>(p5, s6, x16, x22, x23);
    let x24 = SpecSettingsResponse { model: m.model, vision_model: m.vision_model, compress_model: m.compress_model, template: m.template, api_key: m.api_key, base_url: m.base_url, compress_base_url: m.compress_base_url, reasoning_effort: m.reasoning_effort, compress_reasoning_effort: m.compress_reasoning_effort, compression_level: m.compression_level, color_scheme: m.color_scheme, transparency: m.transparency, blur_intensity: m.blur_intensity, autoupdate_enabled: m.autoupdate_enabled, autoupdate_repo: m.autoupdate_repo, autoupdate_branch: m.autoupdate_branch, autoupdate_check_interval_secs: m.autoupdate_check_interval_secs, autoupdate_command: m.autoupdate_command, autoupdate_last_seen_sha: m.autoupdate_last_seen_sha, daily_time_zone: m.daily_time_zone, daily_update_time: m.daily_update_time, max_active_cards: m.max_active_cards, grounding_strategy: m.grounding_strategy, image_strategy: m.image_strategy, search_provider: Seq::empty(), scrape_provider: Seq::empty(), search_api_key: Seq::empty(), search_base_url: Seq::empty(), image_sources: Seq::empty(), grounding_model: Seq::empty(), grounding_reasoning_effort: Seq::empty() };
    let s7 = seg_str(24, m.image_strategy);
    assert(merge_fields(s7, x23) == Some(x24) && fields_wf(s7)) by {
        if m.image_strategy.len() == 0 { assert(m.image_strategy =~= Seq::<char>::empty()); lemma_seg_empty::<SpecSettingsResponse>(x23); } else { lemma_seg_len::<SpecSettingsResponse>(24, encode_utf8(m.image_strategy), x23); }
    }
    let p7 = p6 + s7;
    lemma_chain::<SpecSettingsResponse>(p6, s7, x16, x23, x24);
}

proof fn lemma_round_settings_response_part3(m: SpecSettingsResponse)
    requires
        m.wf(),
    ensures
        merge_fields(m.fields_part3(), SpecSettingsResponse { model: m.model, vision_model: m.vision_model, compress_model: m.compress_model, template: m.template, api_key: m.api_key, base_url: m.base_url, compress_base_url: m.compress_base_url, reasoning_effort: m.reasoning_effort, compress_reasoning_effort: m.compress_reasoning_effort, compression_level: m.compression_level, color_scheme: m.color_scheme, transparency: m.transparency, blur_intensity: m.blur_intensity, autoupdate_enabled: m.autoupdate_enabled, autoupdate_repo: m.autoupdate_repo, autoupdate_branch: m.autoupdate_branch, autoupdate_check_interval_secs: m.autoupdate_check_interval_secs, autoupdate_command: m.autoupdate_command, autoupdate_last_seen_sha: m.autoupdate_last_seen_sha, daily_time_zone: m.daily_time_zone, daily_update_time: m.daily_update_time, max_active_cards: m.max_active_cards, grounding_strategy: m.grounding_strategy, image_strategy: m.image_strategy, search_provider: Seq::empty(), scrape_provider: Seq::empty(), search_api_key: Seq::empty(), search_base_url: Seq::empty(), image_sources: Seq::empty(), grounding_model: Seq::empty(), grounding_reasoning_effort: Seq::empty() }) == Some(SpecSettingsResponse { model: m.model, vision_model: m.vision_model, compress_model: m.compress_model, template: m.template, api_key: m.api_key, base_url: m.base_url, compress_base_url: m.compress_base_url, reasoning_effort: m.reasoning_effort, compress_reasoning_effort: m.compress_reasoning_effort, compression_level: m.compression_level, color_scheme: m.color_scheme, transparency: m.transparency, blur_intensity: m.blur_intensity, autoupdate_enabled: m.autoupdate_enabled, autoupdate_repo: m.autoupdate_repo, autoupdate_branch: m.autoupdate_branch, autoupdate_check_interval_secs: m.autoupdate_check_interval_secs, autoupdate_command: m.autoupdate_command, autoupdate_last_seen_sha: m.autoupdate_last_seen_sha, daily_time_zone: m.daily_time_zone, daily_update_time: m.daily_update_time, max_active_cards: m.max_active_cards, grounding_strategy: m.grounding_strategy, image_strategy: m.image_strategy, search_provider: m.search_provider, scrape_provider: m.scrape_provider, search_api_key: m.search_api_key, search_base_url: m.search_base_url, image_sources: m.image_sources, grounding_model: m.grounding_model, grounding_reasoning_effort: m.grounding_reasoning_effort }),
        fields_wf(m.fields_part3()),
{
    reveal(SpecSettingsResponse::fields_part3);
    reveal(SpecSettingsResponse::wf);
    let x24 = SpecSettingsResponse { model: m.model, vision_model: m.vision_model, compress_model: m.compress_model, template: m.template, api_key: m.api_key, base_url: m.base_url, compress_base_url: m.compress_base_url, reasoning_effort: m.reasoning_effort, compress_reasoning_effort: m.compress_reasoning_effort, compression_level: m.compression_level, color_scheme: m.color_scheme, transparency: m.transparency, blur_intensity: m.blur_intensity, autoupdate_enabled: m.autoupdate_enabled, autoupdate_repo: m.autoupdate_repo, autoupdate_branch: m.autoupdate_branch, autoupdate_check_interval_secs: m.autoupdate_check_interval_secs, autoupdate_command: m.autoupdate_command, autoupdate_last_seen_sha: m.autoupdate_last_seen_sha, daily_time_zone: m.daily_time_zone, daily_update_time: m.daily_update_time, max_active_cards: m.max_active_cards, grounding_strategy: m.grounding_strategy, image_strategy: m.image_strategy, search_provider: Seq::empty(), scrape_provider: Seq::empty(), search_api_key: Seq::empty(), search_base_url: Seq::empty(), image_sources: Seq::empty(), grounding_model: Seq::empty(), grounding_reasoning_effort: Seq::empty() };
    let x25 = SpecSettingsResponse { model: m.model, vision_model: m.vision_model, compress_model: m.compress_model, template: m.template, api_key: m.api_key, base_url: m.base_url, compress_base_url: m.compress_base_url, reasoning_effort: m.reasoning_effort, compress_reasoning_effort: m.compress_reasoning_effort, compression_level: m.compression_level, color_scheme: m.color_scheme, transparency: m.transparency, blur_intensity: m.blur_intensity, autoupdate_enabled: m.autoupdate_enabled, autoupdate_repo: m.autoupdate_repo, autoupdate_branch: m.autoupdate_branch, autoupdate_check_interval_secs: m.autoupdate_check_interval_secs, autoupdate_command: m.autoupdate_command, autoupdate_last_seen_sha: m.autoupdate_last_seen_sha, daily_time_zone: m.daily_time_zone, daily_update_time: m.daily_update_time, max_active_cards: m.max_active_cards, grounding_strategy: m.grounding_strategy, image_strategy: m.image_strategy, search_provider: m.search_provider, scrape_provider: Seq::empty(), search_api_key: Seq::empty(), search_base_url: Seq::empty(), image_sources: Seq::empty(), grounding_model: Seq::empty(), grounding_reasoning_effort: Seq::empty() };
    let s0 = seg_str(25, m.search_provider);
    assert(merge_fields(s0, x24) == Some(x25) && fields_wf(s0)) by {
        if m.search_provider.len() == 0 { assert(m.search_provider =~= Seq::<char>::empty()); lemma_seg_empty::<SpecSettingsResponse>(x24); } else { lemma_seg_len::<SpecSettingsResponse>(25, encode_utf8(m.search_provider), x24); }
    }
    let p0 = s0;
    let x26 = SpecSettingsResponse { model: m.model, vision_model: m.vision_model, compress_model: m.compress_model, template: m.template, api_key: m.api_key, base_url: m.base_url, compress_base_url: m.compress_base_url, reasoning_effort: m.reasoning_effort, compress_reasoning_effort: m.compress_reasoning_effort, compression_level: m.compression_level, color_scheme: m.color_scheme, transparency: m.transparency, blur_intensity: m.blur_intensity, autoupdate_enabled: m.autoupdate_enabled, autoupdate_repo: m.autoupdate_repo, autoupdate_branch: m.autoupdate_branch, autoupdate_check_interval_secs: m.autoupdate_check_interval_secs, autoupdate_command: m.autoupdate_command, autoupdate_last_seen_sha: m.autoupdate_last_seen_sha, daily_time_zone: m.daily_time_zone, daily_update_time: m.daily_update_time, max_active_cards: m.max_active_cards, grounding_strategy: m.grounding_strategy, image_strategy: m.image_strategy, search_provider: m.search_provider, scrape_provider: m.scrape_provider, search_api_key: Seq::empty(), search_base_url: Seq::empty(), image_sources: Seq::empty(), grounding_model: Seq::empty(), grounding_reasoning_effort: Seq::empty() };
    let s1 = seg_str(26, m.scrape_provider);
    assert(merge_fields(s1, x25) == Some(x26) && fields_wf(s1)) by {
        if m.scrape_provider.len() == 0 { assert(m.scrape_provider =~= Seq::<char>::empty()); lemma_seg_empty::<SpecSettingsResponse>(x25); } else { lemma_seg_len::<SpecSettingsResponse>(26, encode_utf8(m.scrape_provider), x25); }
    }
    let p1 = p0 + s1;
    lemma_chain::<SpecSettingsResponse>(p0, s1, x24, x25, x26);
    let x27 = SpecSettingsResponse { model: m.model, vision_model: m.vision_model, compress_model: m.compress_model, template: m.template, api_key: m.api_key, base_url: m.base_url, compress_base_url: m.compress_base_url, reasoning_effort: m.reasoning_effort, compress_reasoning_effort: m.compress_reasoning_effort, compression_level: m.compression_level, color_scheme: m.color_scheme, transparency: m.transparency, blur_intensity: m.blur_intensity, autoupdate_enabled: m.autoupdate_enabled, autoupdate_repo: m.autoupdate_repo, autoupdate_branch: m.autoupdate_branch, autoupdate_check_interval_secs: m.autoupdate_check_interval_secs, autoupdate_command: m.autoupdate_command, autoupdate_last_seen_sha: m.autoupdate_last_seen_sha, daily_time_zone: m.daily_time_zone, daily_update_time: m.daily_update_time, max_active_cards: m.max_active_cards, grounding_strategy: m.grounding_strategy, image_strategy: m.image_strategy, search_provider: m.search_provider, scrape_provider: m.scrape_provider, search_api_key: m.search_api_key, search_base_url: Seq::empty(), image_sources: Seq::empty(), grounding_model: Seq::empty(), grounding_reasoning_effort: Seq::empty() };
    let s2 = seg_str(27, m.search_api_key);
    assert(merge_fields(s2, x26) == Some(x27) && fields_wf(s2)) by {
        if m.search_api_key.len() == 0 { assert(m.search_api_key =~= Seq::<char>::empty()); lemma_seg_empty::<SpecSettingsResponse>(x26); } else { lemma_seg_len::<SpecSettingsResponse>(27, encode_utf8(m.search_api_key), x26); }
    }
    let p2 = p1 + s2;
    lemma_chain::<SpecSettingsResponse>(p1, s2, x24, x26, x27);
    let x28 = SpecSettingsResponse { model: m.model, vision_model: m.vision_model, compress_model: m.compress_model, template: m.template, api_key: m.api_key, base_url: m.base_url, compress_base_url: m.compress_base_url, reasoning_effort: m.reasoning_effort, compress_reasoning_effort: m.compress_reasoning_effort, compression_level: m.compression_level, color_scheme: m.color_scheme, transparency: m.transparency, blur_intensity: m.blur_intensity, autoupdate_enabled: m.autoupdate_enabled, autoupdate_repo: m.autoupdate_repo, autoupdate_branch: m.autoupdate_branch, autoupdate_check_interval_secs: m.autoupdate_check_interval_secs, autoupdate_command: m.autoupdate_command, autoupdate_last_seen_sha: m.autoupdate_last_seen_sha, daily_time_zone: m.daily_time_zone, daily_update_time: m.daily_update_time, max_active_cards: m.max_active_cards, grounding_strategy: m.grounding_strategy, image_strategy: m.image_strategy, search_provider: m.search_provider, scrape_provider: m.scrape_provider, search_api_key: m.search_api_key, search_base_url: m.search_base_url, image_sources: Seq::empty(), grounding_model: Seq::empty(), grounding_reasoning_effort: Seq::empty() };
    let s3 = seg_str(28, m.search_base_url);
    assert(merge_fields(s3, x27) == Some(x28) && fields_wf(s3)) by {
        if m.search_base_url.len() == 0 { assert(m.search_base_url =~= Seq::<char>::empty()); lemma_seg_empty::<SpecSettingsResponse>(x27); } else { lemma_seg_len::<SpecSettingsResponse>(28, encode_utf8(m.search_base_url), x27); }
    }
    let p3 = p2 + s3;
    lemma_chain::<SpecSettingsResponse>(p2, s3, x24, x27, x28);
    let x29 = SpecSettingsResponse { model: m.model, vision_model: m.vision_model, compress_model: m.compress_model, template: m.template, api_key: m.api_key, base_url: m.base_url, compress_base_url: m.compress_base_url, reasoning_effort: m.reasoning_effort, compress_reasoning_effort: m.compress_reasoning_effort, compression_level: m.compression_level, color_scheme: m.color_scheme, transparency: m.transparency, blur_intensity: m.blur_intensity, autoupdate_enabled: m.autoupdate_enabled, autoupdate_repo: m.autoupdate_repo, autoupdate_branch: m.autoupdate_branch, autoupdate_check_interval_secs: m.autoupdate_check_interval_secs, autoupdate_command: m.autoupdate_command, autoupdate_last_seen_sha: m.autoupdate_last_seen_sha, daily_time_zone: m.daily_time_zone, daily_update_time: m.daily_update_time, max_active_cards: m.max_active_cards, grounding_strategy: m.grounding_strategy, image_strategy: m.image_strategy, search_provider: m.search_provider, scrape_provider: m.scrape_provider, search_api_key: m.search_api_key, search_base_url: m.search_base_url, image_sources: m.image_sources, grounding_model: Seq::empty(), grounding_reasoning_effort: Seq::empty() };
    let s4 = seg_str(29, m.image_sources);
    assert(merge_fields(s4, x28) == Some(x29) && fields_wf(s4)) by {
        if m.image_sources.len() == 0 { assert(m.image_sources =~= Seq::<char>::empty()); lemma_seg_empty::<SpecSettingsResponse>(x28); } else { lemma_seg_len::<SpecSettingsResponse>(29, encode_utf8(m.image_sources), x28); }
    }
    let p4 = p3 + s4;
    lemma_chain::<SpecSettingsResponse>(p3, s4, x24, x28, x29);
    let x30 = SpecSettingsResponse { model: m.model, vision_model: m.vision_model, compress_model: m.compress_model, template: m.template, api_key: m.api_key, base_url: m.base_url, compress_base_url: m.compress_base_url, reasoning_effort: m.reasoning_effort, compress_reasoning_effort: m.compress_reasoning_effort, compression_level: m.compression_level, color_scheme: m.color_scheme, transparency: m.transparency, blur_intensity: m.blur_intensity, autoupdate_enabled: m.autoupdate_enabled, autoupdate_repo: m.autoupdate_repo, autoupdate_branch: m.autoupdate_branch, autoupdate_check_interval_secs: m.autoupdate_check_interval_secs, autoupdate_command: m.autoupdate_command, autoupdate_last_seen_sha: m.autoupdate_last_seen_sha, daily_time_zone: m.daily_time_zone, daily_update_time: m.daily_update_time, max_active_cards: m.max_active_cards, grounding_strategy: m.grounding_strategy, image_strategy: m.image_strategy, search_provider: m.search_provider, scrape_provider: m.scrape_provider, search_api_key: m.search_api_key, search_base_url: m.search_base_url, image_sources: m.image_sources, grounding_model: m.grounding_model, grounding_reasoning_effort: Seq::empty() };
    let s5 = seg_str(30, m.grounding_model);
    assert(merge_fields(s5, x29) == Some(x30) && fields_wf(s5)) by {
        if m.grounding_model.len() == 0 { assert(m.grounding_model =~= Seq::<char>::empty()); lemma_seg_empty::<SpecSettingsResponse>(x29); } else { lemma_seg_len::<SpecSettingsResponse>(30, encode_utf8(m.grounding_model), x29); }
    }
    let p5 = p4 + s5;
    lemma_chain::<SpecSettingsResponse>(p4, s5, x24, x29, x30);
    let x31 = SpecSettingsResponse { model: m.model, vision_model: m.vision_model, compress_model: m.compress_model, template: m.template, api_key: m.api_key, base_url: m.base_url, compress_base_url: m.compress_base_url, reasoning_effort: m.reasoning_effort, compress_reasoning_effort: m.compress_reasoning_effort, compression_level: m.compression_level, color_scheme: m.color_scheme, transparency: m.transparency, blur_intensity: m.blur_intensity, autoupdate_enabled: m.autoupdate_enabled, autoupdate_repo: m.autoupdate_repo, autoupdate_branch: m.autoupdate_branch, autoupdate_check_interval_secs: m.autoupdate_check_interval_secs, autoupdate_command: m.autoupdate_command, autoupdate_last_seen_sha: m.autoupdate_last_seen_sha, daily_time_zone: m.daily_time_zone, daily_update_time: m.daily_update_time, max_active_cards: m.max_active_cards, grounding_strategy: m.grounding_strategy, image_strategy: m.image_strategy, search_provider: m.search_provider, scrape_provider: m.scrape_provider, search_api_key: m.search_api_key, search_base_url: m.search_base_url, image_sources: m.image_sources, grounding_model: m.grounding_model, grounding_reasoning_effort: m.grounding_reasoning_effort };
    let s6 = seg_str(31, m.grounding_reasoning_effort);
    assert(merge_fields(s6, x30) == Some(x31) && fields_wf(s6)) by {
        if m.grounding_reasoning_effort.len() == 0 { assert(m.grounding_reasoning_effort =~= Seq::<char>::empty()); lemma_seg_empty::<SpecSettingsResponse>(x30); } else { lemma_seg_len::<SpecSettingsResponse>(31, encode_utf8(m.grounding_reasoning_effort), x30); }
    }
    let p6 = p5 + s6;
    lemma_chain::<SpecSettingsResponse>(p5, s6, x24, x30, x31);
}

/// Decoding the fields of a well-formed `SettingsResponse` gives it back.
pub proof fn lemma_round_settings_response(m: SpecSettingsResponse)
    requires
        m.wf(),
    ensures
        merge_fields(m.fields(), SpecSettingsResponse::empty()) == Some(m),
        fields_wf(m.fields()),
{
    reveal(SpecSettingsResponse::fields);
    lemma_round_settings_response_part0(m);
    let y1 = SpecSettingsResponse { model: m.model, vision_model: m.vision_model, compress_model: m.compress_model, template: m.template, api_key: m.api_key, base_url: m.base_url, compress_base_url: m.compress_base_url, reasoning_effort: m.reasoning_effort, compress_reasoning_effort: Seq::empty(), compression_level: Seq::empty(), color_scheme: Seq::empty(), transparency: Seq::empty(), blur_intensity: Seq::empty(), autoupdate_enabled: false, autoupdate_repo: Seq::empty(), autoupdate_branch: Seq::empty(), autoupdate_check_interval_secs: 0u64, autoupdate_command: Seq::empty(), autoupdate_last_seen_sha: Seq::empty(), daily_time_zone: Seq::empty(), daily_update_time: Seq::empty(), max_active_cards: 0u64, grounding_strategy: Seq::empty(), image_strategy: Seq::empty(), search_provider: Seq::empty(), scrape_provider: Seq::empty(), search_api_key: Seq::empty(), search_base_url: Seq::empty(), image_sources: Seq::empty(), grounding_model: Seq::empty(), grounding_reasoning_effort: Seq::empty() };
    assert(SpecSettingsResponse::empty() == SpecSettingsResponse { model: Seq::empty(), vision_model: Seq::empty(), compress_model: Seq::empty(), template: Seq::empty(), api_key: Seq::empty(), base_url: Seq::empty(), compress_base_url: Seq::empty(), reasoning_effort: Seq::empty(), compress_reasoning_effort: Seq::empty(), compression_level: Seq::empty(), color_scheme: Seq::empty(), transparency: Seq::empty(), blur_intensity: Seq::empty(), autoupdate_enabled: false, autoupdate_repo: Seq::empty(), autoupdate_branch: Seq::empty(), autoupdate_check_interval_secs: 0u64, autoupdate_command: Seq::empty(), autoupdate_last_seen_sha: Seq::empty(), daily_time_zone: Seq::empty(), daily_update_time: Seq::empty(), max_active_cards: 0u64, grounding_strategy: Seq::empty(), image_strategy: Seq::empty(), search_provider: Seq::empty(), scrape_provider: Seq::empty(), search_api_key: Seq::empty(), search_base_url: Seq::empty(), image_sources: Seq::empty(), grounding_model: Seq::empty(), grounding_reasoning_effort: Seq::empty() });
    let q0 = m.fields_part0();
    lemma_round_settings_response_part1(m);
    let y2 = SpecSettingsResponse { model: m.model, vision_model: m.vision_model, compress_model: m.compress_model, template: m.template, api_key: m.api_key, base_url: m.base_url, compress_base_url: m.compress_base_url, reasoning_effort: m.reasoning_effort, compress_reasoning_effort: m.compress_reasoning_effort, compression_level: m.compression_level, color_scheme: m.color_scheme, transparency: m.transparency, blur_intensity: m.blur_intensity, autoupdate_enabled: m.autoupdate_enabled, autoupdate_repo: m.autoupdate_repo, autoupdate_branch: m.autoupdate_branch, autoupdate_check_interval_secs: 0u64, autoupdate_command: Seq::empty(), autoupdate_last_seen_sha: Seq::empty(), daily_time_zone: Seq::empty(), daily_update_time: Seq::empty(), max_active_cards: 0u64, grounding_strategy: Seq::empty(), image_strategy: Seq::empty(), search_provider: Seq::empty(), scrape_provider: Seq::empty(), search_api_key: Seq::empty(), search_base_url: Seq::empty(), image_sources: Seq::empty(), grounding_model: Seq::empty(), grounding_reasoning_effort: Seq::empty() };
    let q1 = q0 + m.fields_part1();
    lemma_chain::<SpecSettingsResponse>(q0, m.fields_part1(), SpecSettingsResponse::empty(), y1, y2);
    lemma_round_settings_response_part2(m);
    let y3 = SpecSettingsResponse { model: m.model, vision_model: m.vision_model, compress_model: m.compress_model, template: m.template, api_key: m.api_key, base_url: m.base_url, compress_base_url: m.compress_base_url, reasoning_effort: m.reasoning_effort, compress_reasoning_effort: m.compress_reasoning_effort, compression_level: m.compression_level, color_scheme: m.color_scheme, transparency: m.transparency, blur_intensity: m.blur_intensity, autoupdate_enabled: m.autoupdate_enabled, autoupdate_repo: m.autoupdate_repo, autoupdate_branch: m.autoupdate_branch, autoupdate_check_interval_secs: m.autoupdate_check_interval_secs, autoupdate_command: m.autoupdate_command, autoupdate_last_seen_sha: m.autoupdate_last_seen_sha, daily_time_zone: m.daily_time_zone, daily_update_time: m.daily_update_time, max_active_cards: m.max_active_cards, grounding_strategy: m.grounding_strategy, image_strategy: m.image_strategy, search_provider: Seq::empty(), scrape_provider: Seq::empty(), search_api_key: Seq::empty(), search_base_url: Seq::empty(), image_sources: Seq::empty(), grounding_model: Seq::empty(), grounding_reasoning_effort: Seq::empty() };
    let q2 = q1 + m.fields_part2();
    lemma_chain::<SpecSettingsResponse>(q1, m.fields_part2(), SpecSettingsResponse::empty(), y2, y3);
    lemma_round_settings_response_part3(m);
    let y4 = SpecSettingsResponse { model: m.model, vision_model: m.vision_model, compress_model: m.compress_model, template: m.template, api_key: m.api_key, base_url: m.base_url, compress_base_url: m.compress_base_url, reasoning_effort: m.reasoning_effort, compress_reasoning_effort: m.compress_reasoning_effort, compression_level: m.compression_level, color_scheme: m.color_scheme, transparency: m.transparency, blur_intensity: m.blur_intensity, autoupdate_enabled: m.autoupdate_enabled, autoupdate_repo: m.autoupdate_repo, autoupdate_branch: m.autoupdate_branch, autoupdate_check_interval_secs: m.autoupdate_check_interval_secs, autoupdate_command: m.autoupdate_command, autoupdate_last_seen_sha: m.autoupdate_last_seen_sha, daily_time_zone: m.daily_time_zone, daily_update_time: m.daily_update_time, max_active_cards: m.max_active_cards, grounding_strategy: m.grounding_strategy, image_strategy: m.image_strategy, search_provider: m.search_provider, scrape_provider: m.scrape_provider, search_api_key: m.search_api_key, search_base_url: m.search_base_url, image_sources: m.image_sources, grounding_model: m.grounding_model, grounding_reasoning_effort: m.grounding_reasoning_effort };
    let q3 = q2 + m.fields_part3();
    lemma_chain::<SpecSettingsResponse>(q2, m.fields_part3(), SpecSettingsResponse::empty(), y3, y4);
    assert(y4 == m);
}

proof fn lemma_wf_settings_response_part0(m: SpecSettingsResponse)
    requires
        fits(encode_fields(m.fields_part0())),
    ensures
        fits(encode_utf8(m.model)),
        fits(encode_utf8(m.vision_model)),
        fits(encode_utf8(m.compress_model)),
        fits(encode_utf8(m.template)),
        fits(encode_utf8(m.api_key)),
        fits(encode_utf8(m.base_url)),
        fits(encode_utf8(m.compress_base_url)),
        fits(encode_utf8(m.reasoning_effort)),
{
    reveal(SpecSettingsResponse::fields_part0);
    let s0 = seg_str(1, m.model);
    let p0 = s0;
    let s1 = seg_str(2, m.vision_model);
    let p1 = p0 + s1;
    let s2 = seg_str(3, m.compress_model);
    let p2 = p1 + s2;
    let s3 = seg_str(4, m.template);
    let p3 = p2 + s3;
    let s4 = seg_str(5, m.api_key);
    let p4 = p3 + s4;
    let s5 = seg_str(6, m.base_url);
    let p5 = p4 + s5;
    let s6 = seg_str(7, m.compress_base_url);
    let p6 = p5 + s6;
    let s7 = seg_str(8, m.reasoning_effort);
    let p7 = p6 + s7;
    lemma_fits_parts(p6, s7);
    lemma_fits_parts(p5, s6);
    lemma_fits_parts(p4, s5);
    lemma_fits_parts(p3, s4);
    lemma_fits_parts(p2, s3);
    lemma_fits_parts(p1, s2);
    lemma_fits_parts(p0, s1);
    lemma_fits_seg_str(1, m.model);
    lemma_fits_seg_str(2, m.vision_model);
    lemma_fits_seg_str(3, m.compress_model);
    lemma_fits_seg_str(4, m.template);
    lemma_fits_seg_str(5, m.api_key);
    lemma_fits_seg_str(6, m.base_url);
    lemma_fits_seg_str(7, m.compress_base_url);
    lemma_fits_seg_str(8, m.reasoning_effort);
}

proof fn lemma_wf_settings_response_part1(m: SpecSettingsResponse)
    requires
        fits(encode_fields(m.fields_part1())),
    ensures
        fits(encode_utf8(m.compress_reasoning_effort)),
        fits(encode_utf8(m.compression_level)),
        fits(encode_utf8(m.color_scheme)),
        fits(encode_utf8(m.transparency)),
        fits(encode_utf8(m.blur_intensity)),
        fits(encode_utf8(m.autoupdate_repo)),
        fits(encode_utf8(m.autoupdate_branch)),
{
    reveal(SpecSettingsResponse::fields_part1);
    let s0 = seg_str(9, m.compress_reasoning_effort);
    let p0 = s0;
    let s1 = seg_str(10, m.compression_level);
    let p1 = p0 + s1;
    let s2 = seg_str(11, m.color_scheme);
    let p2 = p1 + s2;
    let s3 = seg_str(12, m.transparency);
    let p3 = p2 + s3;
    let s4 = seg_str(13, m.blur_intensity);
    let p4 = p3 + s4;
    let s5 = seg_bool(14, m.autoupdate_enabled);
    let p5 = p4 + s5;
    let s6 = seg_str(15, m.autoupdate_repo);
    let p6 = p5 + s6;
    let s7 = seg_str(16, m.autoupdate_branch);
    let p7 = p6 + s7;
    lemma_fits_parts(p6, s7);
    lemma_fits_parts(p5, s6);
    lemma_fits_parts(p4, s5);
    lemma_fits_parts(p3, s4);
    lemma_fits_parts(p2, s3);
    lemma_fits_parts(p1, s2);
    lemma_fits_parts(p0, s1);
    lemma_fits_seg_str(9, m.compress_reasoning_effort);
    lemma_fits_seg_str(10, m.compression_level);
    lemma_fits_seg_str(11, m.color_scheme);
    lemma_fits_seg_str(12, m.transparency);
    lemma_fits_seg_str(13, m.blur_intensity);
    lemma_fits_seg_str(15, m.autoupdate_repo);
    lemma_fits_seg_str(16, m.autoupdate_branch);
}

proof fn lemma_wf_settings_response_part2(m: SpecSettingsResponse)
    requires
        fits(encode_fields(m.fields_part2())),
    ensures
        fits(encode_utf8(m.autoupdate_command)),
        fits(encode_utf8(m.autoupdate_last_seen_sha)),
        fits(encode_utf8(m.daily_time_zone)),
        fits(encode_utf8(m.daily_update_time)),
        fits(encode_utf8(m.grounding_strategy)),
        fits(encode_utf8(m.image_strategy)),
{
    reveal(SpecSettingsResponse::fields_part2);
    let s0 = seg_u64(17, m.autoupdate_check_interval_secs);
    let p0 = s0;
    let s1 = seg_str(18, m.autoupdate_command);
    let p1 = p0 + s1;
    let s2 = seg_str(19, m.autoupdate_last_seen_sha);
    let p2 = p1 + s2;
    let s3 = seg_str(20, m.daily_time_zone);
    let p3 = p2 + s3;
    let s4 = seg_str(21, m.daily_update_time);
    let p4 = p3 + s4;
    let s5 = seg_u64(22, m.max_active_cards);
    let p5 = p4 + s5;
    let s6 = seg_str(23, m.grounding_strategy);
    let p6 = p5 + s6;
    let s7 = seg_str(24, m.image_strategy);
    let p7 = p6 + s7;
    lemma_fits_parts(p6, s7);
    lemma_fits_parts(p5, s6);
    lemma_fits_parts(p4, s5);
    lemma_fits_parts(p3, s4);
    lemma_fits_parts(p2, s3);
    lemma_fits_parts(p1, s2);
    lemma_fits_parts(p0, s1);
    lemma_fits_seg_str(18, m.autoupdate_command);
    lemma_fits_seg_str(19, m.autoupdate_last_seen_sha);
    lemma_fits_seg_str(20, m.daily_time_zone);
    lemma_fits_seg_str(21, m.daily_update_time);
    lemma_fits_seg_str(23, m.grounding_strategy);
    lemma_fits_seg_str(24, m.image_strategy);
}

proof fn lemma_wf_settings_response_part3(m: SpecSettingsResponse)
    requires
        fits(encode_fields(m.fields_part3())),
    ensures
        fits(encode_utf8(m.search_provider)),
        fits(encode_utf8(m.scrape_provider)),
        fits(encode_utf8(m.search_api_key)),
        fits(encode_utf8(m.search_base_url)),
        fits(encode_utf8(m.image_sources)),
        fits(encode_utf8(m.grounding_model)),
        fits(encode_utf8(m.grounding_reasoning_effort)),
{
    reveal(SpecSettingsResponse::fields_part3);
    let s0 = seg_str(25, m.search_provider);
    let p0 = s0;
    let s1 = seg_str(26, m.scrape_provider);
    let p1 = p0 + s1;
    let s2 = seg_str(27, m.search_api_key);
    let p2 = p1 + s2;
    let s3 = seg_str(28, m.search_base_url);
    let p3 = p2 + s3;
    let s4 = seg_str(29, m.image_sources);
    let p4 = p3 + s4;
    let s5 = seg_str(30, m.grounding_model);
    let p5 = p4 + s5;
    let s6 = seg_str(31, m.grounding_reasoning_effort);
    let p6 = p5 + s6;
    lemma_fits_parts(p5, s6);
    lemma_fits_parts(p4, s5);
    lemma_fits_parts(p3, s4);
    lemma_fits_parts(p2, s3);
    lemma_fits_parts(p1, s2);
    lemma_fits_parts(p0, s1);
    lemma_fits_seg_str(25, m.search_provider);
    lemma_fits_seg_str(26, m.scrape_provider);
    lemma_fits_seg_str(27, m.search_api_key);
    lemma_fits_seg_str(28, m.search_base_url);
    lemma_fits_seg_str(29, m.image_sources);
    lemma_fits_seg_str(30, m.grounding_model);
    lemma_fits_seg_str(31, m.grounding_reasoning_effort);
}

/// A `SettingsResponse` whose encoding has a length that fits a varint is well-formed.
pub proof fn lemma_wf_settings_response(m: SpecSettingsResponse)
    requires
        fits(m.encoded()),
    ensures
        m.wf(),
{
    reveal(SpecSettingsResponse::fields);
    reveal(SpecSettingsResponse::wf);
    let q0 = m.fields_part0();
    let q1 = q0 + m.fields_part1();
    let q2 = q1 + m.fields_part2();
    let q3 = q2 + m.fields_part3();
    lemma_fits_parts(q2, m.fields_part3());
    lemma_fits_parts(q1, m.fields_part2());
    lemma_fits_parts(q0, m.fields_part1());
    lemma_wf_settings_response_part0(m);
    lemma_wf_settings_response_part1(m);
    lemma_wf_settings_response_part2(m);
    lemma_wf_settings_response_part3(m);
}

/// Server version information.
#[derive(Clone, Debug, PartialEq, Default)]
pub struct ApiInfoResponse {
    pub server_version: String,
    pub build_sha: String,
}

/// The value of a [`ApiInfoResponse`].
pub struct SpecApiInfoResponse {
    pub server_version: Seq<char>,
    pub build_sha: Seq<char>,
}

impl View for ApiInfoResponse {
    type V = SpecApiInfoResponse;

    open spec fn view(&self) -> SpecApiInfoResponse {
        SpecApiInfoResponse {
            server_version: self.server_version@,
            build_sha: self.build_sha@,
        }
    }
}

impl SpecApiInfoResponse {
    /// Every field at its default.
    pub open spec fn empty() -> SpecApiInfoResponse {
        SpecApiInfoResponse {
            server_version: Seq::empty(),
            build_sha: Seq::empty(),
        }
    }

    /// The fields written for this value, in field-number order.
    #[verifier::opaque]
    pub open spec fn fields(self) -> Seq<SpecField> {
        seg_str(1, self.server_version)
            + seg_str(2, self.build_sha)
    }

    pub open spec fn encoded(self) -> Seq<u8> {
        encode_fields(self.fields())
    }

    pub open spec fn encode_all(v: Seq<SpecApiInfoResponse>) -> Seq<Seq<u8>> {
        Seq::new(v.len(), |i: int| v[i].encoded())
    }

    /// Every length-delimited payload fits a varint length.
    #[verifier::opaque]
    pub open spec fn wf(self) -> bool {
        fits(encode_utf8(self.server_version))
        && fits(encode_utf8(self.build_sha))
    }
}

impl Message for SpecApiInfoResponse {
    open spec fn merge(self, f: SpecField) -> Option<SpecApiInfoResponse> {
        if f.number == 1 {
            match as_string(f.value) { Some(s) => Some(SpecApiInfoResponse { server_version: s, ..self }), None => None }
        } else if f.number == 2 {
            match as_string(f.value) { Some(s) => Some(SpecApiInfoResponse { build_sha: s, ..self }), None => None }
        } else {
            Some(self)
        }
    }
}

impl WireMessage for ApiInfoResponse {
    type Spec = SpecApiInfoResponse;

    open spec fn spec_of(&self) -> SpecApiInfoResponse {
        self@
    }

    open spec fn spec_default() -> SpecApiInfoResponse {
        SpecApiInfoResponse::empty()
    }

    fn default_value() -> (r: Self) {
        let r = ApiInfoResponse {
            server_version: String::new(),
            build_sha: String::new(),
        };
        r
    }

    fn merge_raw(&mut self, buf: &[u8], f: &RawField) -> (ok: bool) {
        if f.number == 1 {
            match raw_string(buf, f) { Some(s) => { self.server_version = s; true }, None => false }
        } else if f.number == 2 {
            match raw_string(buf, f) { Some(s) => { self.build_sha = s; true }, None => false }
        } else {
            true
        }
    }
}

impl ApiInfoResponse {
    /// Appends the protobuf encoding of this message.
    pub fn encode_to(&self, out: &mut Vec<u8>)
        ensures
            final(out)@ == old(out)@ + self@.encoded(),
    {
        let ghost start = out@;
        proof {
            reveal(SpecApiInfoResponse::fields);
        }
        let ghost s0 = seg_str(1, self@.server_version);
        put_str(out, 1, self.server_version.as_str());
        let ghost p0 = s0;
        assert(out@ =~= start + encode_fields(p0));
        let ghost s1 = seg_str(2, self@.build_sha);
        put_str(out, 2, self.build_sha.as_str());
        let ghost p1 = p0 + s1;
        proof {
            lemma_encode_fields_append(p0, s1);
        }
        assert(out@ =~= start + encode_fields(p1));
        assert(out@ =~= start + self@.encoded());
    }

    /// The protobuf encoding of this message.
    pub fn encode_to_vec(&self) -> (r: Vec<u8>)
        ensures
            r@ == self@.encoded(),
    {
        let mut out: Vec<u8> = Vec::new();
        self.encode_to(&mut out);
        assert(out@ =~= self@.encoded());
        out
    }

    /// Decodes a message; `None` where the bytes are not a valid encoding.
    pub fn decode(buf: &[u8]) -> (r: Option<ApiInfoResponse>)
        ensures
            match decode_into(buf@, SpecApiInfoResponse::empty()) {
                Some(m) => r matches Some(v) && v@ == m,
                None => r is None,
            },
    {
        decode_message::<ApiInfoResponse>(buf)
    }

    /// Appends one length-delimited field `n` per element of `v`.
    pub fn put_repeated(out: &mut Vec<u8>, n: u32, v: &Vec<ApiInfoResponse>)
        requires
            1 <= n <= MAX_FIELD_NUMBER,
        ensures
            final(out)@ == old(out)@ + encode_fields(seg_rep(n, SpecApiInfoResponse::encode_all(Seq::new(v@.len(), |i: int| v@[i]@)))),
    {
        let ghost all = SpecApiInfoResponse::encode_all(Seq::new(v@.len(), |i: int| v@[i]@));
        let mut part: Vec<u8> = Vec::new();
        let mut i: usize = 0;
        proof {
            lemma_seg_rep_full(n, all);
            lemma_encode_empty();
        }
        while i < v.len()
            invariant
                1 <= n <= MAX_FIELD_NUMBER,
                i <= v@.len(),
                all == SpecApiInfoResponse::encode_all(Seq::new(v@.len(), |i: int| v@[i]@)),
                part@ == encode_fields(seg_rep(n, all.take(i as int))),
            decreases v@.len() - i,
        {
            let b = v[i].encode_to_vec();
            proof {
                assert(all.take(i as int).push(b@) =~= all.take(i + 1));
            }
            put_rep_item(&mut part, n, b.as_slice(), Ghost(all.take(i as int)));
            i = i + 1;
        }
        proof {
            lemma_seg_rep_full(n, all);
        }
        append_all(out, &part);
    }
}

/// Decoding the fields of a well-formed `ApiInfoResponse` gives it back.
pub proof fn lemma_round_api_info_response(m: SpecApiInfoResponse)
    requires
        m.wf(),
    ensures
        merge_fields(m.fields(), SpecApiInfoResponse::empty()) == Some(m),
        fields_wf(m.fields()),
{
    reveal(SpecApiInfoResponse::fields);
    reveal(SpecApiInfoResponse::wf);
    let x0 = SpecApiInfoResponse::empty();
    let x1 = SpecApiInfoResponse { server_version: m.server_version, build_sha: Seq::empty() };
    let s0 = seg_str(1, m.server_version);
    assert(merge_fields(s0, x0) == Some(x1) && fields_wf(s0)) by {
        if m.server_version.len() == 0 { assert(m.server_version =~= Seq::<char>::empty()); lemma_seg_empty::<SpecApiInfoResponse>(x0); } else { lemma_seg_len::<SpecApiInfoResponse>(1, encode_utf8(m.server_version), x0); }
    }
    let p0 = s0;
    let x2 = SpecApiInfoResponse { server_version: m.server_version, build_sha: m.build_sha };
    let s1 = seg_str(2, m.build_sha);
    assert(merge_fields(s1, x1) == Some(x2) && fields_wf(s1)) by {
        if m.build_sha.len() == 0 { assert(m.build_sha =~= Seq::<char>::empty()); lemma_seg_empty::<SpecApiInfoResponse>(x1); } else { lemma_seg_len::<SpecApiInfoResponse>(2, encode_utf8(m.build_sha), x1); }
    }
    let p1 = p0 + s1;
    lemma_chain::<SpecApiInfoResponse>(p0, s1, x0, x1, x2);
    assert(x2 == m);
}

/// A `ApiInfoResponse` whose encoding has a length that fits a varint is well-formed.
pub proof fn lemma_wf_api_info_response(m: SpecApiInfoResponse)
    requires
        fits(m.encoded()),
    ensures
        m.wf(),
{
    reveal(SpecApiInfoResponse::fields);
    reveal(SpecApiInfoResponse::wf);
    let s0 = seg_str(1, m.server_version);
    let p0 = s0;
    let s1 = seg_str(2, m.build_sha);
    let p1 = p0 + s1;
    lemma_fits_parts(p0, s1);
    lemma_fits_seg_str(1, m.server_version);
    lemma_fits_seg_str(2, m.build_sha);
}

/// The outcome of a vision model check.
#[derive(Clone, Debug, PartialEq, Default)]
pub struct VisionModelTestResponse {
    pub ok: bool,
    pub model: String,
    pub message: String,
}

/// The value of a [`VisionModelTestResponse`].
pub struct SpecVisionModelTestResponse {
    pub ok: bool,
    pub model: Seq<char>,
    pub message: Seq<char>,
}

impl View for VisionModelTestResponse {
    type V = SpecVisionModelTestResponse;

    open spec fn view(&self) -> SpecVisionModelTestResponse {
        SpecVisionModelTestResponse {
            ok: self.ok,
            model: self.model@,
            message: self.message@,
        }
    }
}

impl SpecVisionModelTestResponse {
    /// Every field at its default.
    pub open spec fn empty() -> SpecVisionModelTestResponse {
        SpecVisionModelTestResponse {
            ok: false,
            model: Seq::empty(),
            message: Seq::empty(),
        }
    }

    /// The fields written for this value, in field-number order.
    #[verifier::opaque]
    pub open spec fn fields(self) -> Seq<SpecField> {
        seg_bool(1, self.ok)
            + seg_str(2, self.model)
            + seg_str(3, self.message)
    }

    pub open spec fn encoded(self) -> Seq<u8> {
        encode_fields(self.fields())
    }

    pub open spec fn encode_all(v: Seq<SpecVisionModelTestResponse>) -> Seq<Seq<u8>> {
        Seq::new(v.len(), |i: int| v[i].encoded())
    }

    /// Every length-delimited payload fits a varint length.
    #[verifier::opaque]
    pub open spec fn wf(self) -> bool {
        fits(encode_utf8(self.model))
        && fits(encode_utf8(self.message))
    }
}

impl Message for SpecVisionModelTestResponse {
    open spec fn merge(self, f: SpecField) -> Option<SpecVisionModelTestResponse> {
        if f.number == 1 {
            match as_varint(f.value) { Some(v) => Some(SpecVisionModelTestResponse { ok: v != 0, ..self }), None => None }
        } else if f.number == 2 {
            match as_string(f.value) { Some(s) => Some(SpecVisionModelTestResponse { model: s, ..self }), None => None }
        } else if f.number == 3 {
            match as_string(f.value) { Some(s) => Some(SpecVisionModelTestResponse { message: s, ..self }), None => None }
        } else {
            Some(self)
        }
    }
}

impl WireMessage for VisionModelTestResponse {
    type Spec = SpecVisionModelTestResponse;

    open spec fn spec_of(&self) -> SpecVisionModelTestResponse {
        self@
    }

    open spec fn spec_default() -> SpecVisionModelTestResponse {
        SpecVisionModelTestResponse::empty()
    }

    fn default_value() -> (r: Self) {
        let r = VisionModelTestResponse {
            ok: false,
            model: String::new(),
            message: String::new(),
        };
        r
    }

    fn merge_raw(&mut self, buf: &[u8], f: &RawField) -> (ok: bool) {
        if f.number == 1 {
            match raw_varint(f) { Some(v) => { self.ok = v != 0; true }, None => false }
        } else if f.number == 2 {
            match raw_string(buf, f) { Some(s) => { self.model = s; true }, None => false }
        } else if f.number == 3 {
            match raw_string(buf, f) { Some(s) => { self.message = s; true }, None => false }
        } else {
            true
        }
    }
}

impl VisionModelTestResponse {
    /// Appends the protobuf encoding of this message.
    pub fn encode_to(&self, out: &mut Vec<u8>)
        ensures
            final(out)@ == old(out)@ + self@.encoded(),
    {
        let ghost start = out@;
        proof {
            reveal(SpecVisionModelTestResponse::fields);
        }
        let ghost s0 = seg_bool(1, self@.ok);
        put_bool(out, 1, self.ok);
        let ghost p0 = s0;
        assert(out@ =~= start + encode_fields(p0));
        let ghost s1 = seg_str(2, self@.model);
        put_str(out, 2, self.model.as_str());
        let ghost p1 = p0 + s1;
        proof {
            lemma_encode_fields_append(p0, s1);
        }
        assert(out@ =~= start + encode_fields(p1));
        let ghost s2 = seg_str(3, self@.message);
        put_str(out, 3, self.message.as_str());
        let ghost p2 = p1 + s2;
        proof {
            lemma_encode_fields_append(p1, s2);
        }
        assert(out@ =~= start + encode_fields(p2));
        assert(out@ =~= start + self@.encoded());
    }

    /// The protobuf encoding of this message.
    pub fn encode_to_vec(&self) -> (r: Vec<u8>)
        ensures
            r@ == self@.encoded(),
    {
        let mut out: Vec<u8> = Vec::new();
        self.encode_to(&mut out);
        assert(out@ =~= self@.encoded());
        out
    }

    /// Decodes a message; `None` where the bytes are not a valid encoding.
    pub fn decode(buf: &[u8]) -> (r: Option<VisionModelTestResponse>)
        ensures
            match decode_into(buf@, SpecVisionModelTestResponse::empty()) {
                Some(m) => r matches Some(v) && v@ == m,
                None => r is None,
            },
    {
        decode_message::<VisionModelTestResponse>(buf)
    }

    /// Appends one length-delimited field `n` per element of `v`.
    pub fn put_repeated(out: &mut Vec<u8>, n: u32, v: &Vec<VisionModelTestResponse>)
        requires
            1 <= n <= MAX_FIELD_NUMBER,
        ensures
            final(out)@ == old(out)@ + encode_fields(seg_rep(n, SpecVisionModelTestResponse::encode_all(Seq::new(v@.len(), |i: int| v@[i]@)))),
    {
        let ghost all = SpecVisionModelTestResponse::encode_all(Seq::new(v@.len(), |i: int| v@[i]@));
        let mut part: Vec<u8> = Vec::new();
        let mut i: usize = 0;
        proof {
            lemma_seg_rep_full(n, all);
            lemma_encode_empty();
        }
        while i < v.len()
            invariant
                1 <= n <= MAX_FIELD_NUMBER,
                i <= v@.len(),
                all == SpecVisionModelTestResponse::encode_all(Seq::new(v@.len(), |i: int| v@[i]@)),
                part@ == encode_fields(seg_rep(n, all.take(i as int))),
            decreases v@.len() - i,
        {
            let b = v[i].encode_to_vec();
            proof {
                assert(all.take(i as int).push(b@) =~= all.take(i + 1));
            }
            put_rep_item(&mut part, n, b.as_slice(), Ghost(all.take(i as int)));
            i = i + 1;
        }
        proof {
            lemma_seg_rep_full(n, all);
        }
        append_all(out, &part);
    }
}

/// Decoding the fields of a well-formed `VisionModelTestResponse` gives it back.
pub proof fn lemma_round_vision_model_test_response(m: SpecVisionModelTestResponse)
    requires
        m.wf(),
    ensures
        merge_fields(m.fields(), SpecVisionModelTestResponse::empty()) == Some(m),
        fields_wf(m.fields()),
{
    reveal(SpecVisionModelTestResponse::fields);
    reveal(SpecVisionModelTestResponse::wf);
    let x0 = SpecVisionModelTestResponse::empty();
    let x1 = SpecVisionModelTestResponse { ok: m.ok, model: Seq::empty(), message: Seq::empty() };
    let s0 = seg_bool(1, m.ok);
    assert(merge_fields(s0, x0) == Some(x1) && fields_wf(s0)) by {
        lemma_seg_u64::<SpecVisionModelTestResponse>(1, if m.ok { 1u64 } else { 0u64 }, x0);
    }
    let p0 = s0;
    let x2 = SpecVisionModelTestResponse { ok: m.ok, model: m.model, message: Seq::empty() };
    let s1 = seg_str(2, m.model);
    assert(merge_fields(s1, x1) == Some(x2) && fields_wf(s1)) by {
        if m.model.len() == 0 { assert(m.model =~= Seq::<char>::empty()); lemma_seg_empty::<SpecVisionModelTestResponse>(x1); } else { lemma_seg_len::<SpecVisionModelTestResponse>(2, encode_utf8(m.model), x1); }
    }
    let p1 = p0 + s1;
    lemma_chain::<SpecVisionModelTestResponse>(p0, s1, x0, x1, x2);
    let x3 = SpecVisionModelTestResponse { ok: m.ok, model: m.model, message: m.message };
    let s2 = seg_str(3, m.message);
    assert(merge_fields(s2, x2) == Some(x3) && fields_wf(s2)) by {
        if m.message.len() == 0 { assert(m.message =~= Seq::<char>::empty()); lemma_seg_empty::<SpecVisionModelTestResponse>(x2); } else { lemma_seg_len::<SpecVisionModelTestResponse>(3, encode_utf8(m.message), x2); }
    }
    let p2 = p1 + s2;
    lemma_chain::<SpecVisionModelTestResponse>(p1, s2, x0, x2, x3);
    assert(x3 == m);
}

/// A `VisionModelTestResponse` whose encoding has a length that fits a varint is well-formed.
pub proof fn lemma_wf_vision_model_test_response(m: SpecVisionModelTestResponse)
    requires
        fits(m.encoded()),
    ensures
        m.wf(),
{
    reveal(SpecVisionModelTestResponse::fields);
    reveal(SpecVisionModelTestResponse::wf);
    let s0 = seg_bool(1, m.ok);
    let p0 = s0;
    let s1 = seg_str(2, m.model);
    let p1 = p0 + s1;
    let s2 = seg_str(3, m.message);
    let p2 = p1 + s2;
    lemma_fits_parts(p1, s2);
    lemma_fits_parts(p0, s1);
    lemma_fits_seg_str(2, m.model);
    lemma_fits_seg_str(3, m.message);
}

/// An API key without its secret.
#[derive(Clone, Debug, PartialEq, Default)]
pub struct ApiKeyInfo {
    pub id: i64,
    pub client_name: String,
    pub created_at: String,
}

/// The value of a [`ApiKeyInfo`].
pub struct SpecApiKeyInfo {
    pub id: i64,
    pub client_name: Seq<char>,
    pub created_at: Seq<char>,
}

impl View for ApiKeyInfo {
    type V = SpecApiKeyInfo;

    open spec fn view(&self) -> SpecApiKeyInfo {
        SpecApiKeyInfo {
            id: self.id,
            client_name: self.client_name@,
            created_at: self.created_at@,
        }
    }
}

impl SpecApiKeyInfo {
    /// Every field at its default.
    pub open spec fn empty() -> SpecApiKeyInfo {
        SpecApiKeyInfo {
            id: 0i64,
            client_name: Seq::empty(),
            created_at: Seq::empty(),
        }
    }

    /// The fields written for this value, in field-number order.
    #[verifier::opaque]
    pub open spec fn fields(self) -> Seq<SpecField> {
        seg_i64(1, self.id)
            + seg_str(2, self.client_name)
            + seg_str(3, self.created_at)
    }

    pub open spec fn encoded(self) -> Seq<u8> {
        encode_fields(self.fields())
    }

    pub open spec fn encode_all(v: Seq<SpecApiKeyInfo>) -> Seq<Seq<u8>> {
        Seq::new(v.len(), |i: int| v[i].encoded())
    }

    /// Every length-delimited payload fits a varint length.
    #[verifier::opaque]
    pub open spec fn wf(self) -> bool {
        fits(encode_utf8(self.client_name))
        && fits(encode_utf8(self.created_at))
    }
}

impl Message for SpecApiKeyInfo {
    open spec fn merge(self, f: SpecField) -> Option<SpecApiKeyInfo> {
        if f.number == 1 {
            match as_varint(f.value) { Some(v) => Some(SpecApiKeyInfo { id: v as i64, ..self }), None => None }
        } else if f.number == 2 {
            match as_string(f.value) { Some(s) => Some(SpecApiKeyInfo { client_name: s, ..self }), None => None }
        } else if f.number == 3 {
            match as_string(f.value) { Some(s) => Some(SpecApiKeyInfo { created_at: s, ..self }), None => None }
        } else {
            Some(self)
        }
    }
}

impl WireMessage for ApiKeyInfo {
    type Spec = SpecApiKeyInfo;

    open spec fn spec_of(&self) -> SpecApiKeyInfo {
        self@
    }

    open spec fn spec_default() -> SpecApiKeyInfo {
        SpecApiKeyInfo::empty()
    }

    fn default_value() -> (r: Self) {
        let r = ApiKeyInfo {
            id: 0,
            client_name: String::new(),
            created_at: String::new(),
        };
        r
    }

    fn merge_raw(&mut self, buf: &[u8], f: &RawField) -> (ok: bool) {
        if f.number == 1 {
            match raw_varint(f) { Some(v) => { self.id = v as i64; true }, None => false }
        } else if f.number == 2 {
            match raw_string(buf, f) { Some(s) => { self.client_name = s; true }, None => false }
        } else if f.number == 3 {
            match raw_string(buf, f) { Some(s) => { self.created_at = s; true }, None => false }
        } else {
            true
        }
    }
}

impl ApiKeyInfo {
    /// Appends the protobuf encoding of this message.
    pub fn encode_to(&self, out: &mut Vec<u8>)
        ensures
            final(out)@ == old(out)@ + self@.encoded(),
    {
        let ghost start = out@;
        proof {
            reveal(SpecApiKeyInfo::fields);
        }
        let ghost s0 = seg_i64(1, self@.id);
        put_i64(out, 1, self.id);
        let ghost p0 = s0;
        assert(out@ =~= start + encode_fields(p0));
        let ghost s1 = seg_str(2, self@.client_name);
        put_str(out, 2, self.client_name.as_str());
        let ghost p1 = p0 + s1;
        proof {
            lemma_encode_fields_append(p0, s1);
        }
        assert(out@ =~= start + encode_fields(p1));
        let ghost s2 = seg_str(3, self@.created_at);
        put_str(out, 3, self.created_at.as_str());
        let ghost p2 = p1 + s2;
        proof {
            lemma_encode_fields_append(p1, s2);
        }
        assert(out@ =~= start + encode_fields(p2));
        assert(out@ =~= start + self@.encoded());
    }

    /// The protobuf encoding of this message.
    pub fn encode_to_vec(&self) -> (r: Vec<u8>)
        ensures
            r@ == self@.encoded(),
    {
        let mut out: Vec<u8> = Vec::new();
        self.encode_to(&mut out);
        assert(out@ =~= self@.encoded());
        out
    }

    /// Decodes a message; `None` where the bytes are not a valid encoding.
    pub fn decode(buf: &[u8]) -> (r: Option<ApiKeyInfo>)
        ensures
            match decode_into(buf@, SpecApiKeyInfo::empty()) {
                Some(m) => r matches Some(v) && v@ == m,
                None => r is None,
            },
    {
        decode_message::<ApiKeyInfo>(buf)
    }

    /// Appends one length-delimited field `n` per element of `v`.
    pub fn put_repeated(out: &mut Vec<u8>, n: u32, v: &Vec<ApiKeyInfo>)
        requires
            1 <= n <= MAX_FIELD_NUMBER,
        ensures
            final(out)@ == old(out)@ + encode_fields(seg_rep(n, SpecApiKeyInfo::encode_all(Seq::new(v@.len(), |i: int| v@[i]@)))),
    {
        let ghost all = SpecApiKeyInfo::encode_all(Seq::new(v@.len(), |i: int| v@[i]@));
        let mut part: Vec<u8> = Vec::new();
        let mut i: usize = 0;
        proof {
            lemma_seg_rep_full(n, all);
            lemma_encode_empty();
        }
        while i < v.len()
            invariant
                1 <= n <= MAX_FIELD_NUMBER,
                i <= v@.len(),
                all == SpecApiKeyInfo::encode_all(Seq::new(v@.len(), |i: int| v@[i]@)),
                part@ == encode_fields(seg_rep(n, all.take(i as int))),
            decreases v@.len() - i,
        {
            let b = v[i].encode_to_vec();
            proof {
                assert(all.take(i as int).push(b@) =~= all.take(i + 1));
            }
            put_rep_item(&mut part, n, b.as_slice(), Ghost(all.take(i as int)));
            i = i + 1;
        }
        proof {
            lemma_seg_rep_full(n, all);
        }
        append_all(out, &part);
    }
}

/// Decoding the fields of a well-formed `ApiKeyInfo` gives it back.
pub proof fn lemma_round_api_key_info(m: SpecApiKeyInfo)
    requires
        m.wf(),
    ensures
        merge_fields(m.fields(), SpecApiKeyInfo::empty()) == Some(m),
        fields_wf(m.fields()),
{
    reveal(SpecApiKeyInfo::fields);
    reveal(SpecApiKeyInfo::wf);
    let x0 = SpecApiKeyInfo::empty();
    let x1 = SpecApiKeyInfo { id: m.id, client_name: Seq::empty(), created_at: Seq::empty() };
    let s0 = seg_i64(1, m.id);
    assert(merge_fields(s0, x0) == Some(x1) && fields_wf(s0)) by {
        lemma_zero_i64(m.id);
        lemma_seg_u64::<SpecApiKeyInfo>(1, m.id as u64, x0);
    }
    let p0 = s0;
    let x2 = SpecApiKeyInfo { id: m.id, client_name: m.client_name, created_at: Seq::empty() };
    let s1 = seg_str(2, m.client_name);
    assert(merge_fields(s1, x1) == Some(x2) && fields_wf(s1)) by {
        if m.client_name.len() == 0 { assert(m.client_name =~= Seq::<char>::empty()); lemma_seg_empty::<SpecApiKeyInfo>(x1); } else { lemma_seg_len::<SpecApiKeyInfo>(2, encode_utf8(m.client_name), x1); }
    }
    let p1 = p0 + s1;
    lemma_chain::<SpecApiKeyInfo>(p0, s1, x0, x1, x2);
    let x3 = SpecApiKeyInfo { id: m.id, client_name: m.client_name, created_at: m.created_at };
    let s2 = seg_str(3, m.created_at);
    assert(merge_fields(s2, x2) == Some(x3) && fields_wf(s2)) by {
        if m.created_at.len() == 0 { assert(m.created_at =~= Seq::<char>::empty()); lemma_seg_empty::<SpecApiKeyInfo>(x2); } else { lemma_seg_len::<SpecApiKeyInfo>(3, encode_utf8(m.created_at), x2); }
    }
    let p2 = p1 + s2;
    lemma_chain::<SpecApiKeyInfo>(p1, s2, x0, x2, x3);
    assert(x3 == m);
}

/// A `ApiKeyInfo` whose encoding has a length that fits a varint is well-formed.
pub proof fn lemma_wf_api_key_info(m: SpecApiKeyInfo)
    requires
        fits(m.encoded()),
    ensures
        m.wf(),
{
    reveal(SpecApiKeyInfo::fields);
    reveal(SpecApiKeyInfo::wf);
    let s0 = seg_i64(1, m.id);
    let p0 = s0;
    let s1 = seg_str(2, m.client_name);
    let p1 = p0 + s1;
    let s2 = seg_str(3, m.created_at);
    let p2 = p1 + s2;
    lemma_fits_parts(p1, s2);
    lemma_fits_parts(p0, s1);
    lemma_fits_seg_str(2, m.client_name);
    lemma_fits_seg_str(3, m.created_at);
}

/// The API keys.
#[derive(Clone, Debug, PartialEq, Default)]
pub struct ApiKeyListResponse {
    pub keys: Vec<ApiKeyInfo>,
}

/// The value of a [`ApiKeyListResponse`].
pub struct SpecApiKeyListResponse {
    pub keys: Seq<SpecApiKeyInfo>,
}

impl View for ApiKeyListResponse {
    type V = SpecApiKeyListResponse;

    open spec fn view(&self) -> SpecApiKeyListResponse {
        SpecApiKeyListResponse {
            keys: Seq::new(self.keys@.len(), |i: int| self.keys@[i]@),
        }
    }
}

impl SpecApiKeyListResponse {
    /// Every field at its default.
    pub open spec fn empty() -> SpecApiKeyListResponse {
        SpecApiKeyListResponse {
            keys: Seq::empty(),
        }
    }

    /// The fields written for this value, in field-number order.
    #[verifier::opaque]
    pub open spec fn fields(self) -> Seq<SpecField> {
        seg_rep(1, SpecApiKeyInfo::encode_all(self.keys))
    }

    pub open spec fn encoded(self) -> Seq<u8> {
        encode_fields(self.fields())
    }

    pub open spec fn encode_all(v: Seq<SpecApiKeyListResponse>) -> Seq<Seq<u8>> {
        Seq::new(v.len(), |i: int| v[i].encoded())
    }

    /// Every length-delimited payload fits a varint length.
    #[verifier::opaque]
    pub open spec fn wf(self) -> bool {
        (forall|i: int| 0 <= i < self.keys.len() ==> (#[trigger] self.keys[i]).wf() && fits(self.keys[i].encoded()))
    }
}

impl Message for SpecApiKeyListResponse {
    open spec fn merge(self, f: SpecField) -> Option<SpecApiKeyListResponse> {
        if f.number == 1 {
            match merge_nested(f.value, SpecApiKeyInfo::empty()) { Some(c) => Some(SpecApiKeyListResponse { keys: self.keys.push(c), ..self }), None => None }
        } else {
            Some(self)
        }
    }
}

impl WireMessage for ApiKeyListResponse {
    type Spec = SpecApiKeyListResponse;

    open spec fn spec_of(&self) -> SpecApiKeyListResponse {
        self@
    }

    open spec fn spec_default() -> SpecApiKeyListResponse {
        SpecApiKeyListResponse::empty()
    }

    fn default_value() -> (r: Self) {
        let r = ApiKeyListResponse {
            keys: Vec::new(),
        };
        assert(r@.keys =~= Seq::empty());
        r
    }

    fn merge_raw(&mut self, buf: &[u8], f: &RawField) -> (ok: bool) {
        if f.number == 1 {
            match raw_nested(buf, f, ApiKeyInfo::default_value()) { Some(c) => { self.keys.push(c); proof { assert(self@.keys =~= old(self)@.keys.push(self.keys@.last()@)); } true }, None => false }
        } else {
            true
        }
    }
}

impl ApiKeyListResponse {
    /// Appends the protobuf encoding of this message.
    pub fn encode_to(&self, out: &mut Vec<u8>)
        ensures
            final(out)@ == old(out)@ + self@.encoded(),
    {
        let ghost start = out@;
        proof {
            reveal(SpecApiKeyListResponse::fields);
        }
        let ghost s0 = seg_rep(1, SpecApiKeyInfo::encode_all(self@.keys));
        ApiKeyInfo::put_repeated(out, 1, &self.keys);
        let ghost p0 = s0;
        assert(out@ =~= start + encode_fields(p0));
        assert(out@ =~= start + self@.encoded());
    }

    /// The protobuf encoding of this message.
    pub fn encode_to_vec(&self) -> (r: Vec<u8>)
        ensures
            r@ == self@.encoded(),
    {
        let mut out: Vec<u8> = Vec::new();
        self.encode_to(&mut out);
        assert(out@ =~= self@.encoded());
        out
    }

    /// Decodes a message; `None` where the bytes are not a valid encoding.
    pub fn decode(buf: &[u8]) -> (r: Option<ApiKeyListResponse>)
        ensures
            match decode_into(buf@, SpecApiKeyListResponse::empty()) {
                Some(m) => r matches Some(v) && v@ == m,
                None => r is None,
            },
    {
        decode_message::<ApiKeyListResponse>(buf)
    }

    /// Appends one length-delimited field `n` per element of `v`.
    pub fn put_repeated(out: &mut Vec<u8>, n: u32, v: &Vec<ApiKeyListResponse>)
        requires
            1 <= n <= MAX_FIELD_NUMBER,
        ensures
            final(out)@ == old(out)@ + encode_fields(seg_rep(n, SpecApiKeyListResponse::encode_all(Seq::new(v@.len(), |i: int| v@[i]@)))),
    {
        let ghost all = SpecApiKeyListResponse::encode_all(Seq::new(v@.len(), |i: int| v@[i]@));
        let mut part: Vec<u8> = Vec::new();
        let mut i: usize = 0;
        proof {
            lemma_seg_rep_full(n, all);
            lemma_encode_empty();
        }
        while i < v.len()
            invariant
                1 <= n <= MAX_FIELD_NUMBER,
                i <= v@.len(),
                all == SpecApiKeyListResponse::encode_all(Seq::new(v@.len(), |i: int| v@[i]@)),
                part@ == encode_fields(seg_rep(n, all.take(i as int))),
            decreases v@.len() - i,
        {
            let b = v[i].encode_to_vec();
            proof {
                assert(all.take(i as int).push(b@) =~= all.take(i + 1));
            }
            put_rep_item(&mut part, n, b.as_slice(), Ghost(all.take(i as int)));
            i = i + 1;
        }
        proof {
            lemma_seg_rep_full(n, all);
        }
        append_all(out, &part);
    }
}

proof fn lemma_api_key_list_response_rep_keys(v: Seq<SpecApiKeyInfo>, x: SpecApiKeyListResponse)
    requires
        forall|i: int| 0 <= i < v.len() ==> (#[trigger] v[i]).wf(),
    ensures
        merge_fields(seg_rep(1, SpecApiKeyInfo::encode_all(v)), x) == Some(SpecApiKeyListResponse { keys: x.keys + v, ..x }),
    decreases v.len(),
{
    if v.len() == 0 {
        lemma_rep_empty(1, SpecApiKeyInfo::encode_all(v));
        lemma_seg_empty::<SpecApiKeyListResponse>(x);
        assert(x.keys + v =~= x.keys);
    } else {
        let w = v.drop_last();
        lemma_api_key_list_response_rep_keys(w, x);
        assert(SpecApiKeyInfo::encode_all(v).drop_last() =~= SpecApiKeyInfo::encode_all(w));
        lemma_rep_split(1, SpecApiKeyInfo::encode_all(v));
        lemma_merge_fields_append(seg_rep(1, SpecApiKeyInfo::encode_all(w)), seq![lfield(1, v.last().encoded())], x);
        let y = SpecApiKeyListResponse { keys: x.keys + w, ..x };
        lemma_merge_one(lfield(1, v.last().encoded()), y);
        lemma_round_api_key_info(v.last());
        lemma_decode_encode_fields(v.last().fields(), SpecApiKeyInfo::empty());
        assert((x.keys + w).push(v.last()) =~= x.keys + v);
    }
}

/// Decoding the fields of a well-formed `ApiKeyListResponse` gives it back.
pub proof fn lemma_round_api_key_list_response(m: SpecApiKeyListResponse)
    requires
        m.wf(),
    ensures
        merge_fields(m.fields(), SpecApiKeyListResponse::empty()) == Some(m),
        fields_wf(m.fields()),
{
    reveal(SpecApiKeyListResponse::fields);
    reveal(SpecApiKeyListResponse::wf);
    let x0 = SpecApiKeyListResponse::empty();
    let x1 = SpecApiKeyListResponse { keys: m.keys };
    let s0 = seg_rep(1, SpecApiKeyInfo::encode_all(m.keys));
    assert(merge_fields(s0, x0) == Some(x1) && fields_wf(s0)) by {
        lemma_api_key_list_response_rep_keys(m.keys, x0);
        assert forall|i: int| 0 <= i < SpecApiKeyInfo::encode_all(m.keys).len() implies fits(#[trigger] SpecApiKeyInfo::encode_all(m.keys)[i]) by { assert(m.keys[i].wf() && fits(m.keys[i].encoded())); }
        lemma_rep_wf(1, SpecApiKeyInfo::encode_all(m.keys));
        assert(x0.keys + m.keys =~= m.keys);
    }
    let p0 = s0;
    assert(x1 == m);
}

/// A `ApiKeyListResponse` whose encoding has a length that fits a varint is well-formed.
pub proof fn lemma_wf_api_key_list_response(m: SpecApiKeyListResponse)
    requires
        fits(m.encoded()),
    ensures
        m.wf(),
{
    reveal(SpecApiKeyListResponse::fields);
    reveal(SpecApiKeyListResponse::wf);
    let s0 = seg_rep(1, SpecApiKeyInfo::encode_all(m.keys));
    let p0 = s0;
    lemma_fits_seg_rep(1, SpecApiKeyInfo::encode_all(m.keys));
    assert forall|i: int| 0 <= i < m.keys.len() implies (#[trigger] m.keys[i]).wf() && fits(m.keys[i].encoded()) by { assert(fits(SpecApiKeyInfo::encode_all(m.keys)[i])); lemma_wf_api_key_info(m.keys[i]); }
}

/// A newly created API key.
#[derive(Clone, Debug, PartialEq, Default)]
pub struct ApiKeyCreatedResponse {
    pub api_key: String,
}

/// The value of a [`ApiKeyCreatedResponse`].
pub struct SpecApiKeyCreatedResponse {
    pub api_key: Seq<char>,
}

impl View for ApiKeyCreatedResponse {
    type V = SpecApiKeyCreatedResponse;

    open spec fn view(&self) -> SpecApiKeyCreatedResponse {
        SpecApiKeyCreatedResponse {
            api_key: self.api_key@,
        }
    }
}

impl SpecApiKeyCreatedResponse {
    /// Every field at its default.
    pub open spec fn empty() -> SpecApiKeyCreatedResponse {
        SpecApiKeyCreatedResponse {
            api_key: Seq::empty(),
        }
    }

    /// The fields written for this value, in field-number order.
    #[verifier::opaque]
    pub open spec fn fields(self) -> Seq<SpecField> {
        seg_str(1, self.api_key)
    }

    pub open spec fn encoded(self) -> Seq<u8> {
        encode_fields(self.fields())
    }

    pub open spec fn encode_all(v: Seq<SpecApiKeyCreatedResponse>) -> Seq<Seq<u8>> {
        Seq::new(v.len(), |i: int| v[i].encoded())
    }

    /// Every length-delimited payload fits a varint length.
    #[verifier::opaque]
    pub open spec fn wf(self) -> bool {
        fits(encode_utf8(self.api_key))
    }
}

impl Message for SpecApiKeyCreatedResponse {
    open spec fn merge(self, f: SpecField) -> Option<SpecApiKeyCreatedResponse> {
        if f.number == 1 {
            match as_string(f.value) { Some(s) => Some(SpecApiKeyCreatedResponse { api_key: s, ..self }), None => None }
        } else {
            Some(self)
        }
    }
}

impl WireMessage for ApiKeyCreatedResponse {
    type Spec = SpecApiKeyCreatedResponse;

    open spec fn spec_of(&self) -> SpecApiKeyCreatedResponse {
        self@
    }

    open spec fn spec_default() -> SpecApiKeyCreatedResponse {
        SpecApiKeyCreatedResponse::empty()
    }

    fn default_value() -> (r: Self) {
        let r = ApiKeyCreatedResponse {
            api_key: String::new(),
        };
        r
    }

    fn merge_raw(&mut self, buf: &[u8], f: &RawField) -> (ok: bool) {
        if f.number == 1 {
            match raw_string(buf, f) { Some(s) => { self.api_key = s; true }, None => false }
        } else {
            true
        }
    }
}

impl ApiKeyCreatedResponse {
    /// Appends the protobuf encoding of this message.
    pub fn encode_to(&self, out: &mut Vec<u8>)
        ensures
            final(out)@ == old(out)@ + self@.encoded(),
    {
        let ghost start = out@;
        proof {
            reveal(SpecApiKeyCreatedResponse::fields);
        }
        let ghost s0 = seg_str(1, self@.api_key);
        put_str(out, 1, self.api_key.as_str());
        let ghost p0 = s0;
        assert(out@ =~= start + encode_fields(p0));
        assert(out@ =~= start + self@.encoded());
    }

    /// The protobuf encoding of this message.
    pub fn encode_to_vec(&self) -> (r: Vec<u8>)
        ensures
            r@ == self@.encoded(),
    {
        let mut out: Vec<u8> = Vec::new();
        self.encode_to(&mut out);
        assert(out@ =~= self@.encoded());
        out
    }

    /// Decodes a message; `None` where the bytes are not a valid encoding.
    pub fn decode(buf: &[u8]) -> (r: Option<ApiKeyCreatedResponse>)
        ensures
            match decode_into(buf@, SpecApiKeyCreatedResponse::empty()) {
                Some(m) => r matches Some(v) && v@ == m,
                None => r is None,
            },
    {
        decode_message::<ApiKeyCreatedResponse>(buf)
    }

    /// Appends one length-delimited field `n` per element of `v`.
    pub fn put_repeated(out: &mut Vec<u8>, n: u32, v: &Vec<ApiKeyCreatedResponse>)
        requires
            1 <= n <= MAX_FIELD_NUMBER,
        ensures
            final(out)@ == old(out)@ + encode_fields(seg_rep(n, SpecApiKeyCreatedResponse::encode_all(Seq::new(v@.len(), |i: int| v@[i]@)))),
    {
        let ghost all = SpecApiKeyCreatedResponse::encode_all(Seq::new(v@.len(), |i: int| v@[i]@));
        let mut part: Vec<u8> = Vec::new();
        let mut i: usize = 0;
        proof {
            lemma_seg_rep_full(n, all);
            lemma_encode_empty();
        }
        while i < v.len()
            invariant
                1 <= n <= MAX_FIELD_NUMBER,
                i <= v@.len(),
                all == SpecApiKeyCreatedResponse::encode_all(Seq::new(v@.len(), |i: int| v@[i]@)),
                part@ == encode_fields(seg_rep(n, all.take(i as int))),
            decreases v@.len() - i,
        {
            let b = v[i].encode_to_vec();
            proof {
                assert(all.take(i as int).push(b@) =~= all.take(i + 1));
            }
            put_rep_item(&mut part, n, b.as_slice(), Ghost(all.take(i as int)));
            i = i + 1;
        }
        proof {
            lemma_seg_rep_full(n, all);
        }
        append_all(out, &part);
    }
}

/// Decoding the fields of a well-formed `ApiKeyCreatedResponse` gives it back.
pub proof fn lemma_round_api_key_created_response(m: SpecApiKeyCreatedResponse)
    requires
        m.wf(),
    ensures
        merge_fields(m.fields(), SpecApiKeyCreatedResponse::empty()) == Some(m),
        fields_wf(m.fields()),
{
    reveal(SpecApiKeyCreatedResponse::fields);
    reveal(SpecApiKeyCreatedResponse::wf);
    let x0 = SpecApiKeyCreatedResponse::empty();
    let x1 = SpecApiKeyCreatedResponse { api_key: m.api_key };
    let s0 = seg_str(1, m.api_key);
    assert(merge_fields(s0, x0) == Some(x1) && fields_wf(s0)) by {
        if m.api_key.len() == 0 { assert(m.api_key =~= Seq::<char>::empty()); lemma_seg_empty::<SpecApiKeyCreatedResponse>(x0); } else { lemma_seg_len::<SpecApiKeyCreatedResponse>(1, encode_utf8(m.api_key), x0); }
    }
    let p0 = s0;
    assert(x1 == m);
}

/// A `ApiKeyCreatedResponse` whose encoding has a length that fits a varint is well-formed.
pub proof fn lemma_wf_api_key_created_response(m: SpecApiKeyCreatedResponse)
    requires
        fits(m.encoded()),
    ensures
        m.wf(),
{
    reveal(SpecApiKeyCreatedResponse::fields);
    reveal(SpecApiKeyCreatedResponse::wf);
    let s0 = seg_str(1, m.api_key);
    let p0 = s0;
    lemma_fits_seg_str(1, m.api_key);
}

/// Card and topic counts.
#[derive(Clone, Debug, PartialEq, Default)]
pub struct SummaryResponse {
    pub due_cards: i64,
    pub active_cards: i64,
    pub total_cards: i64,
    pub topics: i64,
}

/// The value of a [`SummaryResponse`].
pub struct SpecSummaryResponse {
    pub due_cards: i64,
    pub active_cards: i64,
    pub total_cards: i64,
    pub topics: i64,
}

impl View for SummaryResponse {
    type V = SpecSummaryResponse;

    open spec fn view(&self) -> SpecSummaryResponse {
        SpecSummaryResponse {
            due_cards: self.due_cards,
            active_cards: self.active_cards,
            total_cards: self.total_cards,
            topics: self.topics,
        }
    }
}

impl SpecSummaryResponse {
    /// Every field at its default.
    pub open spec fn empty() -> SpecSummaryResponse {
        SpecSummaryResponse {
            due_cards: 0i64,
            active_cards: 0i64,
            total_cards: 0i64,
            topics: 0i64,
        }
    }

    /// The fields written for this value, in field-number order.
    #[verifier::opaque]
    pub open spec fn fields(self) -> Seq<SpecField> {
        seg_i64(1, self.due_cards)
            + seg_i64(2, self.active_cards)
            + seg_i64(3, self.total_cards)
            + seg_i64(4, self.topics)
    }

    pub open spec fn encoded(self) -> Seq<u8> {
        encode_fields(self.fields())
    }

    pub open spec fn encode_all(v: Seq<SpecSummaryResponse>) -> Seq<Seq<u8>> {
        Seq::new(v.len(), |i: int| v[i].encoded())
    }

    /// Every length-delimited payload fits a varint length.
    #[verifier::opaque]
    pub open spec fn wf(self) -> bool {
        true
    }
}

impl Message for SpecSummaryResponse {
    open spec fn merge(self, f: SpecField) -> Option<SpecSummaryResponse> {
        if f.number == 1 {
            match as_varint(f.value) { Some(v) => Some(SpecSummaryResponse { due_cards: v as i64, ..self }), None => None }
        } else if f.number == 2 {
            match as_varint(f.value) { Some(v) => Some(SpecSummaryResponse { active_cards: v as i64, ..self }), None => None }
        } else if f.number == 3 {
            match as_varint(f.value) { Some(v) => Some(SpecSummaryResponse { total_cards: v as i64, ..self }), None => None }
        } else if f.number == 4 {
            match as_varint(f.value) { Some(v) => Some(SpecSummaryResponse { topics: v as i64, ..self }), None => None }
        } else {
            Some(self)
        }
    }
}

impl WireMessage for SummaryResponse {
    type Spec = SpecSummaryResponse;

    open spec fn spec_of(&self) -> SpecSummaryResponse {
        self@
    }

    open spec fn spec_default() -> SpecSummaryResponse {
        SpecSummaryResponse::empty()
    }

    fn default_value() -> (r: Self) {
        let r = SummaryResponse {
            due_cards: 0,
            active_cards: 0,
            total_cards: 0,
            topics: 0,
        };
        r
    }

    fn merge_raw(&mut self, buf: &[u8], f: &RawField) -> (ok: bool) {
        if f.number == 1 {
            match raw_varint(f) { Some(v) => { self.due_cards = v as i64; true }, None => false }
        } else if f.number == 2 {
            match raw_varint(f) { Some(v) => { self.active_cards = v as i64; true }, None => false }
        } else if f.number == 3 {
            match raw_varint(f) { Some(v) => { self.total_cards = v as i64; true }, None => false }
        } else if f.number == 4 {
            match raw_varint(f) { Some(v) => { self.topics = v as i64; true }, None => false }
        } else {
            true
        }
    }
}

impl SummaryResponse {
    /// Appends the protobuf encoding of this message.
    pub fn encode_to(&self, out: &mut Vec<u8>)
        ensures
            final(out)@ == old(out)@ + self@.encoded(),
    {
        let ghost start = out@;
        proof {
            reveal(SpecSummaryResponse::fields);
        }
        let ghost s0 = seg_i64(1, self@.due_cards);
        put_i64(out, 1, self.due_cards);
        let ghost p0 = s0;
        assert(out@ =~= start + encode_fields(p0));
        let ghost s1 = seg_i64(2, self@.active_cards);
        put_i64(out, 2, self.active_cards);
        let ghost p1 = p0 + s1;
        proof {
            lemma_encode_fields_append(p0, s1);
        }
        assert(out@ =~= start + encode_fields(p1));
        let ghost s2 = seg_i64(3, self@.total_cards);
        put_i64(out, 3, self.total_cards);
        let ghost p2 = p1 + s2;
        proof {
            lemma_encode_fields_append(p1, s2);
        }
        assert(out@ =~= start + encode_fields(p2));
        let ghost s3 = seg_i64(4, self@.topics);
        put_i64(out, 4, self.topics);
        let ghost p3 = p2 + s3;
        proof {
            lemma_encode_fields_append(p2, s3);
        }
        assert(out@ =~= start + encode_fields(p3));
        assert(out@ =~= start + self@.encoded());
    }

    /// The protobuf encoding of this message.
    pub fn encode_to_vec(&self) -> (r: Vec<u8>)
        ensures
            r@ == self@.encoded(),
    {
        let mut out: Vec<u8> = Vec::new();
        self.encode_to(&mut out);
        assert(out@ =~= self@.encoded());
        out
    }

    /// Decodes a message; `None` where the bytes are not a valid encoding.
    pub fn decode(buf: &[u8]) -> (r: Option<SummaryResponse>)
        ensures
            match decode_into(buf@, SpecSummaryResponse::empty()) {
                Some(m) => r matches Some(v) && v@ == m,
                None => r is None,
            },
    {
        decode_message::<SummaryResponse>(buf)
    }

    /// Appends one length-delimited field `n` per element of `v`.
    pub fn put_repeated(out: &mut Vec<u8>, n: u32, v: &Vec<SummaryResponse>)
        requires
            1 <= n <= MAX_FIELD_NUMBER,
        ensures
            final(out)@ == old(out)@ + encode_fields(seg_rep(n, SpecSummaryResponse::encode_all(Seq::new(v@.len(), |i: int| v@[i]@)))),
    {
        let ghost all = SpecSummaryResponse::encode_all(Seq::new(v@.len(), |i: int| v@[i]@));
        let mut part: Vec<u8> = Vec::new();
        let mut i: usize = 0;
        proof {
            lemma_seg_rep_full(n, all);
            lemma_encode_empty();
        }
        while i < v.len()
            invariant
                1 <= n <= MAX_FIELD_NUMBER,
                i <= v@.len(),
                all == SpecSummaryResponse::encode_all(Seq::new(v@.len(), |i: int| v@[i]@)),
                part@ == encode_fields(seg_rep(n, all.take(i as int))),
            decreases v@.len() - i,
        {
            let b = v[i].encode_to_vec();
            proof {
                assert(all.take(i as int).push(b@) =~= all.take(i + 1));
            }
            put_rep_item(&mut part, n, b.as_slice(), Ghost(all.take(i as int)));
            i = i + 1;
        }
        proof {
            lemma_seg_rep_full(n, all);
        }
        append_all(out, &part);
    }
}

/// Decoding the fields of a well-formed `SummaryResponse` gives it back.
pub proof fn lemma_round_summary_response(m: SpecSummaryResponse)
    requires
        m.wf(),
    ensures
        merge_fields(m.fields(), SpecSummaryResponse::empty()) == Some(m),
        fields_wf(m.fields()),
{
    reveal(SpecSummaryResponse::fields);
    reveal(SpecSummaryResponse::wf);
    let x0 = SpecSummaryResponse::empty();
    let x1 = SpecSummaryResponse { due_cards: m.due_cards, active_cards: 0i64, total_cards: 0i64, topics: 0i64 };
    let s0 = seg_i64(1, m.due_cards);
    assert(merge_fields(s0, x0) == Some(x1) && fields_wf(s0)) by {
        lemma_zero_i64(m.due_cards);
        lemma_seg_u64::<SpecSummaryResponse>(1, m.due_cards as u64, x0);
    }
    let p0 = s0;
    let x2 = SpecSummaryResponse { due_cards: m.due_cards, active_cards: m.active_cards, total_cards: 0i64, topics: 0i64 };
    let s1 = seg_i64(2, m.active_cards);
    assert(merge_fields(s1, x1) == Some(x2) && fields_wf(s1)) by {
        lemma_zero_i64(m.active_cards);
        lemma_seg_u64::<SpecSummaryResponse>(2, m.active_cards as u64, x1);
    }
    let p1 = p0 + s1;
    lemma_chain::<SpecSummaryResponse>(p0, s1, x0, x1, x2);
    let x3 = SpecSummaryResponse { due_cards: m.due_cards, active_cards: m.active_cards, total_cards: m.total_cards, topics: 0i64 };
    let s2 = seg_i64(3, m.total_cards);
    assert(merge_fields(s2, x2) == Some(x3) && fields_wf(s2)) by {
        lemma_zero_i64(m.total_cards);
        lemma_seg_u64::<SpecSummaryResponse>(3, m.total_cards as u64, x2);
    }
    let p2 = p1 + s2;
    lemma_chain::<SpecSummaryResponse>(p1, s2, x0, x2, x3);
    let x4 = SpecSummaryResponse { due_cards: m.due_cards, active_cards: m.active_cards, total_cards: m.total_cards, topics: m.topics };
    let s3 = seg_i64(4, m.topics);
    assert(merge_fields(s3, x3) == Some(x4) && fields_wf(s3)) by {
        lemma_zero_i64(m.topics);
        lemma_seg_u64::<SpecSummaryResponse>(4, m.topics as u64, x3);
    }
    let p3 = p2 + s3;
    lemma_chain::<SpecSummaryResponse>(p2, s3, x0, x3, x4);
    assert(x4 == m);
}

/// A `SummaryResponse` whose encoding has a length that fits a varint is well-formed.
pub proof fn lemma_wf_summary_response(m: SpecSummaryResponse)
    requires
        fits(m.encoded()),
    ensures
        m.wf(),
{
    reveal(SpecSummaryResponse::fields);
    reveal(SpecSummaryResponse::wf);
}

/// A topic with its counts and settings.
#[derive(Clone, Debug, PartialEq, Default)]
pub struct AppTopicInfo {
    pub id: i64,
    pub name: String,
    pub tipcard_type: String,
    pub icon_id: String,
    pub topic_color: String,
    pub prompt_template: String,
    pub total_cards: i64,
    pub due_cards: i64,
    pub pending_cards: i64,
    pub completed_cards: i64,
    pub daily_card_count: u32,
    pub daily_time_zone: String,
    pub daily_update_time: String,
    pub compression_level: String,
    pub grounding_strategy: String,
    pub image_strategy: String,
}

/// The value of a [`AppTopicInfo`].
pub struct SpecAppTopicInfo {
    pub id: i64,
    pub name: Seq<char>,
    pub tipcard_type: Seq<char>,
    pub icon_id: Seq<char>,
    pub topic_color: Seq<char>,
    pub prompt_template: Seq<char>,
    pub total_cards: i64,
    pub due_cards: i64,
    pub pending_cards: i64,
    pub completed_cards: i64,
    pub daily_card_count: u32,
    pub daily_time_zone: Seq<char>,
    pub daily_update_time: Seq<char>,
    pub compression_level: Seq<char>,
    pub grounding_strategy: Seq<char>,
    pub image_strategy: Seq<char>,
}

impl View for AppTopicInfo {
    type V = SpecAppTopicInfo;

    open spec fn view(&self) -> SpecAppTopicInfo {
        SpecAppTopicInfo {
            id: self.id,
            name: self.name@,
            tipcard_type: self.tipcard_type@,
            icon_id: self.icon_id@,
            topic_color: self.topic_color@,
            prompt_template: self.prompt_template@,
            total_cards: self.total_cards,
            due_cards: self.due_cards,
            pending_cards: self.pending_cards,
            completed_cards: self.completed_cards,
            daily_card_count: self.daily_card_count,
            daily_time_zone: self.daily_time_zone@,
            daily_update_time: self.daily_update_time@,
            compression_level: self.compression_level@,
            grounding_strategy: self.grounding_strategy@,
            image_strategy: self.image_strategy@,
        }
    }
}

impl SpecAppTopicInfo {
    /// Every field at its default.
    pub open spec fn empty() -> SpecAppTopicInfo {
        SpecAppTopicInfo {
            id: 0i64,
            name: Seq::empty(),
            tipcard_type: Seq::empty(),
            icon_id: Seq::empty(),
            topic_color: Seq::empty(),
            prompt_template: Seq::empty(),
            total_cards: 0i64,
            due_cards: 0i64,
            pending_cards: 0i64,
            completed_cards: 0i64,
            daily_card_count: 0u32,
            daily_time_zone: Seq::empty(),
            daily_update_time: Seq::empty(),
            compression_level: Seq::empty(),
            grounding_strategy: Seq::empty(),
            image_strategy: Seq::empty(),
        }
    }

    /// The fields written for this value, in field-number order.
    #[verifier::opaque]
    pub open spec fn fields(self) -> Seq<SpecField> {
        seg_i64(1, self.id)
            + seg_str(2, self.name)
            + seg_str(3, self.tipcard_type)
            + seg_str(4, self.icon_id)
            + seg_str(5, self.topic_color)
            + seg_str(6, self.prompt_template)
            + seg_i64(7, self.total_cards)
            + seg_i64(8, self.due_cards)
            + seg_i64(9, self.pending_cards)
            + seg_i64(10, self.completed_cards)
            + seg_u32(11, self.daily_card_count)
            + seg_str(12, self.daily_time_zone)
            + seg_str(13, self.daily_update_time)
            + seg_str(14, self.compression_level)
            + seg_str(15, self.grounding_strategy)
            + seg_str(16, self.image_strategy)
    }

    pub open spec fn encoded(self) -> Seq<u8> {
        encode_fields(self.fields())
    }

    pub open spec fn encode_all(v: Seq<SpecAppTopicInfo>) -> Seq<Seq<u8>> {
        Seq::new(v.len(), |i: int| v[i].encoded())
    }

    /// Every length-delimited payload fits a varint length.
    #[verifier::opaque]
    pub open spec fn wf(self) -> bool {
        fits(encode_utf8(self.name))
        && fits(encode_utf8(self.tipcard_type))
        && fits(encode_utf8(self.icon_id))
        && fits(encode_utf8(self.topic_color))
        && fits(encode_utf8(self.prompt_template))
        && fits(encode_utf8(self.daily_time_zone))
        && fits(encode_utf8(self.daily_update_time))
        && fits(encode_utf8(self.compression_level))
        && fits(encode_utf8(self.grounding_strategy))
        && fits(encode_utf8(self.image_strategy))
    }
}

impl Message for SpecAppTopicInfo {
    open spec fn merge(self, f: SpecField) -> Option<SpecAppTopicInfo> {
        if f.number == 1 {
            match as_varint(f.value) { Some(v) => Some(SpecAppTopicInfo { id: v as i64, ..self }), None => None }
        } else if f.number == 2 {
            match as_string(f.value) { Some(s) => Some(SpecAppTopicInfo { name: s, ..self }), None => None }
        } else if f.number == 3 {
            match as_string(f.value) { Some(s) => Some(SpecAppTopicInfo { tipcard_type: s, ..self }), None => None }
        } else if f.number == 4 {
            match as_string(f.value) { Some(s) => Some(SpecAppTopicInfo { icon_id: s, ..self }), None => None }
        } else if f.number == 5 {
            match as_string(f.value) { Some(s) => Some(SpecAppTopicInfo { topic_color: s, ..self }), None => None }
        } else if f.number == 6 {
            match as_string(f.value) { Some(s) => Some(SpecAppTopicInfo { prompt_template: s, ..self }), None => None }
        } else if f.number == 7 {
            match as_varint(f.value) { Some(v) => Some(SpecAppTopicInfo { total_cards: v as i64, ..self }), None => None }
        } else if f.number == 8 {
            match as_varint(f.value) { Some(v) => Some(SpecAppTopicInfo { due_cards: v as i64, ..self }), None => None }
        } else if f.number == 9 {
            match as_varint(f.value) { Some(v) => Some(SpecAppTopicInfo { pending_cards: v as i64, ..self }), None => None }
        } else if f.number == 10 {
            match as_varint(f.value) { Some(v) => Some(SpecAppTopicInfo { completed_cards: v as i64, ..self }), None => None }
        } else if f.number == 11 {
            match as_varint(f.value) { Some(v) => Some(SpecAppTopicInfo { daily_card_count: v as u32, ..self }), None => None }
        } else if f.number == 12 {
            match as_string(f.value) { Some(s) => Some(SpecAppTopicInfo { daily_time_zone: s, ..self }), None => None }
        } else if f.number == 13 {
            match as_string(f.value) { Some(s) => Some(SpecAppTopicInfo { daily_update_time: s, ..self }), None => None }
        } else if f.number == 14 {
            match as_string(f.value) { Some(s) => Some(SpecAppTopicInfo { compression_level: s, ..self }), None => None }
        } else if f.number == 15 {
            match as_string(f.value) { Some(s) => Some(SpecAppTopicInfo { grounding_strategy: s, ..self }), None => None }
        } else if f.number == 16 {
            match as_string(f.value) { Some(s) => Some(SpecAppTopicInfo { image_strategy: s, ..self }), None => None }
        } else {
            Some(self)
        }
    }
}

impl WireMessage for AppTopicInfo {
    type Spec = SpecAppTopicInfo;

    open spec fn spec_of(&self) -> SpecAppTopicInfo {
        self@
    }

    open spec fn spec_default() -> SpecAppTopicInfo {
        SpecAppTopicInfo::empty()
    }

    fn default_value() -> (r: Self) {
        let r = AppTopicInfo {
            id: 0,
            name: String::new(),
            tipcard_type: String::new(),
            icon_id: String::new(),
            topic_color: String::new(),
            prompt_template: String::new(),
            total_cards: 0,
            due_cards: 0,
            pending_cards: 0,
            completed_cards: 0,
            daily_card_count: 0,
            daily_time_zone: String::new(),
            daily_update_time: String::new(),
            compression_level: String::new(),
            grounding_strategy: String::new(),
            image_strategy: String::new(),
        };
        r
    }

    #[verifier::rlimit(100)]
    fn merge_raw(&mut self, buf: &[u8], f: &RawField) -> (ok: bool) {
        if f.number == 1 {
            match raw_varint(f) { Some(v) => { self.id = v as i64; true }, None => false }
        } else if f.number == 2 {
            match raw_string(buf, f) { Some(s) => { self.name = s; true }, None => false }
        } else if f.number == 3 {
            match raw_string(buf, f) { Some(s) => { self.tipcard_type = s; true }, None => false }
        } else if f.number == 4 {
            match raw_string(buf, f) { Some(s) => { self.icon_id = s; true }, None => false }
        } else if f.number == 5 {
            match raw_string(buf, f) { Some(s) => { self.topic_color = s; true }, None => false }
        } else if f.number == 6 {
            match raw_string(buf, f) { Some(s) => { self.prompt_template = s; true }, None => false }
        } else if f.number == 7 {
            match raw_varint(f) { Some(v) => { self.total_cards = v as i64; true }, None => false }
        } else if f.number == 8 {
            match raw_varint(f) { Some(v) => { self.due_cards = v as i64; true }, None => false }
        } else if f.number == 9 {
            match raw_varint(f) { Some(v) => { self.pending_cards = v as i64; true }, None => false }
        } else if f.number == 10 {
            match raw_varint(f) { Some(v) => { self.completed_cards = v as i64; true }, None => false }
        } else if f.number == 11 {
            match raw_varint(f) { Some(v) => { self.daily_card_count = v as u32; true }, None => false }
        } else if f.number == 12 {
            match raw_string(buf, f) { Some(s) => { self.daily_time_zone = s; true }, None => false }
        } else if f.number == 13 {
            match raw_string(buf, f) { Some(s) => { self.daily_update_time = s; true }, None => false }
        } else if f.number == 14 {
            match raw_string(buf, f) { Some(s) => { self.compression_level = s; true }, None => false }
        } else if f.number == 15 {
            match raw_string(buf, f) { Some(s) => { self.grounding_strategy = s; true }, None => false }
        } else if f.number == 16 {
            match raw_string(buf, f) { Some(s) => { self.image_strategy = s; true }, None => false }
        } else {
            true
        }
    }
}

impl AppTopicInfo {
    /// Appends the protobuf encoding of this message.
    #[verifier::rlimit(100)]
    pub fn encode_to(&self, out: &mut Vec<u8>)
        ensures
            final(out)@ == old(out)@ + self@.encoded(),
    {
        let ghost start = out@;
        proof {
            reveal(SpecAppTopicInfo::fields);
        }
        let ghost s0 = seg_i64(1, self@.id);
        put_i64(out, 1, self.id);
        let ghost p0 = s0;
        assert(out@ =~= start + encode_fields(p0));
        let ghost s1 = seg_str(2, self@.name);
        put_str(out, 2, self.name.as_str());
        let ghost p1 = p0 + s1;
        proof {
            lemma_encode_fields_append(p0, s1);
        }
        assert(out@ =~= start + encode_fields(p1));
        let ghost s2 = seg_str(3, self@.tipcard_type);
        put_str(out, 3, self.tipcard_type.as_str());
        let ghost p2 = p1 + s2;
        proof {
            lemma_encode_fields_append(p1, s2);
        }
        assert(out@ =~= start + encode_fields(p2));
        let ghost s3 = seg_str(4, self@.icon_id);
        put_str(out, 4, self.icon_id.as_str());
        let ghost p3 = p2 + s3;
        proof {
            lemma_encode_fields_append(p2, s3);
        }
        assert(out@ =~= start + encode_fields(p3));
        let ghost s4 = seg_str(5, self@.topic_color);
        put_str(out, 5, self.topic_color.as_str());
        let ghost p4 = p3 + s4;
        proof {
            lemma_encode_fields_append(p3, s4);
        }
        assert(out@ =~= start + encode_fields(p4));
        let ghost s5 = seg_str(6, self@.prompt_template);
        put_str(out, 6, self.prompt_template.as_str());
        let ghost p5 = p4 + s5;
        proof {
            lemma_encode_fields_append(p4, s5);
        }
        assert(out@ =~= start + encode_fields(p5));
        let ghost s6 = seg_i64(7, self@.total_cards);
        put_i64(out, 7, self.total_cards);
        let ghost p6 = p5 + s6;
        proof {
            lemma_encode_fields_append(p5, s6);
        }
        assert(out@ =~= start + encode_fields(p6));
        let ghost s7 = seg_i64(8, self@.due_cards);
        put_i64(out, 8, self.due_cards);
        let ghost p7 = p6 + s7;
        proof {
            lemma_encode_fields_append(p6, s7);
        }
        assert(out@ =~= start + encode_fields(p7));
        let ghost s8 = seg_i64(9, self@.pending_cards);
        put_i64(out, 9, self.pending_cards);
        let ghost p8 = p7 + s8;
        proof {
            lemma_encode_fields_append(p7, s8);
        }
        assert(out@ =~= start + encode_fields(p8));
        let ghost s9 = seg_i64(10, self@.completed_cards);
        put_i64(out, 10, self.completed_cards);
        let ghost p9 = p8 + s9;
        proof {
            lemma_encode_fields_append(p8, s9);
        }
        assert(out@ =~= start + encode_fields(p9));
        let ghost s10 = seg_u32(11, self@.daily_card_count);
        put_u32(out, 11, self.daily_card_count);
        let ghost p10 = p9 + s10;
        proof {
            lemma_encode_fields_append(p9, s10);
        }
        assert(out@ =~= start + encode_fields(p10));
        let ghost s11 = seg_str(12, self@.daily_time_zone);
        put_str(out, 12, self.daily_time_zone.as_str());
        let ghost p11 = p10 + s11;
        proof {
            lemma_encode_fields_append(p10, s11);
        }
        assert(out@ =~= start + encode_fields(p11));
        let ghost s12 = seg_str(13, self@.daily_update_time);
        put_str(out, 13, self.daily_update_time.as_str());
        let ghost p12 = p11 + s12;
        proof {
            lemma_encode_fields_append(p11, s12);
        }
        assert(out@ =~= start + encode_fields(p12));
        let ghost s13 = seg_str(14, self@.compression_level);
        put_str(out, 14, self.compression_level.as_str());
        let ghost p13 = p12 + s13;
        proof {
            lemma_encode_fields_append(p12, s13);
        }
        assert(out@ =~= start + encode_fields(p13));
        let ghost s14 = seg_str(15, self@.grounding_strategy);
        put_str(out, 15, self.grounding_strategy.as_str());
        let ghost p14 = p13 + s14;
        proof {
            lemma_encode_fields_append(p13, s14);
        }
        assert(out@ =~= start + encode_fields(p14));
        let ghost s15 = seg_str(16, self@.image_strategy);
        put_str(out, 16, self.image_strategy.as_str());
        let ghost p15 = p14 + s15;
        proof {
            lemma_encode_fields_append(p14, s15);
        }
        assert(out@ =~= start + encode_fields(p15));
        assert(out@ =~= start + self@.encoded());
    }

    /// The protobuf encoding of this message.
    pub fn encode_to_vec(&self) -> (r: Vec<u8>)
        ensures
            r@ == self@.encoded(),
    {
        let mut out: Vec<u8> = Vec::new();
        self.encode_to(&mut out);
        assert(out@ =~= self@.encoded());
        out
    }

    /// Decodes a message; `None` where the bytes are not a valid encoding.
    pub fn decode(buf: &[u8]) -> (r: Option<AppTopicInfo>)
        ensures
            match decode_into(buf@, SpecAppTopicInfo::empty()) {
                Some(m) => r matches Some(v) && v@ == m,
                None => r is None,
            },
    {
        decode_message::<AppTopicInfo>(buf)
    }

    /// Appends one length-delimited field `n` per element of `v`.
    pub fn put_repeated(out: &mut Vec<u8>, n: u32, v: &Vec<AppTopicInfo>)
        requires
            1 <= n <= MAX_FIELD_NUMBER,
        ensures
            final(out)@ == old(out)@ + encode_fields(seg_rep(n, SpecAppTopicInfo::encode_all(Seq::new(v@.len(), |i: int| v@[i]@)))),
    {
        let ghost all = SpecAppTopicInfo::encode_all(Seq::new(v@.len(), |i: int| v@[i]@));
        let mut part: Vec<u8> = Vec::new();
        let mut i: usize = 0;
        proof {
            lemma_seg_rep_full(n, all);
            lemma_encode_empty();
        }
        while i < v.len()
            invariant
                1 <= n <= MAX_FIELD_NUMBER,
                i <= v@.len(),
                all == SpecAppTopicInfo::encode_all(Seq::new(v@.len(), |i: int| v@[i]@)),
                part@ == encode_fields(seg_rep(n, all.take(i as int))),
            decreases v@.len() - i,
        {
            let b = v[i].encode_to_vec();
            proof {
                assert(all.take(i as int).push(b@) =~= all.take(i + 1));
            }
            put_rep_item(&mut part, n, b.as_slice(), Ghost(all.take(i as int)));
            i = i + 1;
        }
        proof {
            lemma_seg_rep_full(n, all);
        }
        append_all(out, &part);
    }
}

/// Decoding the fields of a well-formed `AppTopicInfo` gives it back.
pub proof fn lemma_round_app_topic_info(m: SpecAppTopicInfo)
    requires
        m.wf(),
    ensures
        merge_fields(m.fields(), SpecAppTopicInfo::empty()) == Some(m),
        fields_wf(m.fields()),
{
    reveal(SpecAppTopicInfo::fields);
    reveal(SpecAppTopicInfo::wf);
    let x0 = SpecAppTopicInfo::empty();
    let x1 = SpecAppTopicInfo { id: m.id, name: Seq::empty(), tipcard_type: Seq::empty(), icon_id: Seq::empty(), topic_color: Seq::empty(), prompt_template: Seq::empty(), total_cards: 0i64, due_cards: 0i64, pending_cards: 0i64, completed_cards: 0i64, daily_card_count: 0u32, daily_time_zone: Seq::empty(), daily_update_time: Seq::empty(), compression_level: Seq::empty(), grounding_strategy: Seq::empty(), image_strategy: Seq::empty() };
    let s0 = seg_i64(1, m.id);
    assert(merge_fields(s0, x0) == Some(x1) && fields_wf(s0)) by {
        lemma_zero_i64(m.id);
        lemma_seg_u64::<SpecAppTopicInfo>(1, m.id as u64, x0);
    }
    let p0 = s0;
    let x2 = SpecAppTopicInfo { id: m.id, name: m.name, tipcard_type: Seq::empty(), icon_id: Seq::empty(), topic_color: Seq::empty(), prompt_template: Seq::empty(), total_cards: 0i64, due_cards: 0i64, pending_cards: 0i64, completed_cards: 0i64, daily_card_count: 0u32, daily_time_zone: Seq::empty(), daily_update_time: Seq::empty(), compression_level: Seq::empty(), grounding_strategy: Seq::empty(), image_strategy: Seq::empty() };
    let s1 = seg_str(2, m.name);
    assert(merge_fields(s1, x1) == Some(x2) && fields_wf(s1)) by {
        if m.name.len() == 0 { assert(m.name =~= Seq::<char>::empty()); lemma_seg_empty::<SpecAppTopicInfo>(x1); } else { lemma_seg_len::<SpecAppTopicInfo>(2, encode_utf8(m.name), x1); }
    }
    let p1 = p0 + s1;
    lemma_chain::<SpecAppTopicInfo>(p0, s1, x0, x1, x2);
    let x3 = SpecAppTopicInfo { id: m.id, name: m.name, tipcard_type: m.tipcard_type, icon_id: Seq::empty(), topic_color: Seq::empty(), prompt_template: Seq::empty(), total_cards: 0i64, due_cards: 0i64, pending_cards: 0i64, completed_cards: 0i64, daily_card_count: 0u32, daily_time_zone: Seq::empty(), daily_update_time: Seq::empty(), compression_level: Seq::empty(), grounding_strategy: Seq::empty(), image_strategy: Seq::empty() };
    let s2 = seg_str(3, m.tipcard_type);
    assert(merge_fields(s2, x2) == Some(x3) && fields_wf(s2)) by {
        if m.tipcard_type.len() == 0 { assert(m.tipcard_type =~= Seq::<char>::empty()); lemma_seg_empty::<SpecAppTopicInfo>(x2); } else { lemma_seg_len::<SpecAppTopicInfo>(3, encode_utf8(m.tipcard_type), x2); }
    }
    let p2 = p1 + s2;
    lemma_chain::<SpecAppTopicInfo>(p1, s2, x0, x2, x3);
    let x4 = SpecAppTopicInfo { id: m.id, name: m.name, tipcard_type: m.tipcard_type, icon_id: m.icon_id, topic_color: Seq::empty(), prompt_template: Seq::empty(), total_cards: 0i64, due_cards: 0i64, pending_cards: 0i64, completed_cards: 0i64, daily_card_count: 0u32, daily_time_zone: Seq::empty(), daily_update_time: Seq::empty(), compression_level: Seq::empty(), grounding_strategy: Seq::empty(), image_strategy: Seq::empty() };
    let s3 = seg_str(4, m.icon_id);
    assert(merge_fields(s3, x3) == Some(x4) && fields_wf(s3)) by {
        if m.icon_id.len() == 0 { assert(m.icon_id =~= Seq::<char>::empty()); lemma_seg_empty::<SpecAppTopicInfo>(x3); } else { lemma_seg_len::<SpecAppTopicInfo>(4, encode_utf8(m.icon_id), x3); }
    }
    let p3 = p2 + s3;
    lemma_chain::<SpecAppTopicInfo>(p2, s3, x0, x3, x4);
    let x5 = SpecAppTopicInfo { id: m.id, name: m.name, tipcard_type: m.tipcard_type, icon_id: m.icon_id, topic_color: m.topic_color, prompt_template: Seq::empty(), total_cards: 0i64, due_cards: 0i64, pending_cards: 0i64, completed_cards: 0i64, daily_card_count: 0u32, daily_time_zone: Seq::empty(), daily_update_time: Seq::empty(), compression_level: Seq::empty(), grounding_strategy: Seq::empty(), image_strategy: Seq::empty() };
    let s4 = seg_str(5, m.topic_color);
    assert(merge_fields(s4, x4) == Some(x5) && fields_wf(s4)) by {
        if m.topic_color.len() == 0 { assert(m.topic_color =~= Seq::<char>::empty()); lemma_seg_empty::<SpecAppTopicInfo>(x4); } else { lemma_seg_len::<SpecAppTopicInfo>(5, encode_utf8(m.topic_color), x4); }
    }
    let p4 = p3 + s4;
    lemma_chain::<SpecAppTopicInfo>(p3, s4, x0, x4, x5);
    let x6 = SpecAppTopicInfo { id: m.id, name: m.name, tipcard_type: m.tipcard_type, icon_id: m.icon_id, topic_color: m.topic_color, prompt_template: m.prompt_template, total_cards: 0i64, due_cards: 0i64, pending_cards: 0i64, completed_cards: 0i64, daily_card_count: 0u32, daily_time_zone: Seq::empty(), daily_update_time: Seq::empty(), compression_level: Seq::empty(), grounding_strategy: Seq::empty(), image_strategy: Seq::empty() };
    let s5 = seg_str(6, m.prompt_template);
    assert(merge_fields(s5, x5) == Some(x6) && fields_wf(s5)) by {
        if m.prompt_template.len() == 0 { assert(m.prompt_template =~= Seq::<char>::empty()); lemma_seg_empty::<SpecAppTopicInfo>(x5); } else { lemma_seg_len::<SpecAppTopicInfo>(6, encode_utf8(m.prompt_template), x5); }
    }
    let p5 = p4 + s5;
    lemma_chain::<SpecAppTopicInfo>(p4, s5, x0, x5, x6);
    let x7 = SpecAppTopicInfo { id: m.id, name: m.name, tipcard_type: m.tipcard_type, icon_id: m.icon_id, topic_color: m.topic_color, prompt_template: m.prompt_template, total_cards: m.total_cards, due_cards: 0i64, pending_cards: 0i64, completed_cards: 0i64, daily_card_count: 0u32, daily_time_zone: Seq::empty(), daily_update_time: Seq::empty(), compression_level: Seq::empty(), grounding_strategy: Seq::empty(), image_strategy: Seq::empty() };
    let s6 = seg_i64(7, m.total_cards);
    assert(merge_fields(s6, x6) == Some(x7) && fields_wf(s6)) by {
        lemma_zero_i64(m.total_cards);
        lemma_seg_u64::<SpecAppTopicInfo>(7, m.total_cards as u64, x6);
    }
    let p6 = p5 + s6;
    lemma_chain::<SpecAppTopicInfo>(p5, s6, x0, x6, x7);
    let x8 = SpecAppTopicInfo { id: m.id, name: m.name, tipcard_type: m.tipcard_type, icon_id: m.icon_id, topic_color: m.topic_color, prompt_template: m.prompt_template, total_cards: m.total_cards, due_cards: m.due_cards, pending_cards: 0i64, completed_cards: 0i64, daily_card_count: 0u32, daily_time_zone: Seq::empty(), daily_update_time: Seq::empty(), compression_level: Seq::empty(), grounding_strategy: Seq::empty(), image_strategy: Seq::empty() };
    let s7 = seg_i64(8, m.due_cards);
    assert(merge_fields(s7, x7) == Some(x8) && fields_wf(s7)) by {
        lemma_zero_i64(m.due_cards);
        lemma_seg_u64::<SpecAppTopicInfo>(8, m.due_cards as u64, x7);
    }
    let p7 = p6 + s7;
    lemma_chain::<SpecAppTopicInfo>(p6, s7, x0, x7, x8);
    let x9 = SpecAppTopicInfo { id: m.id, name: m.name, tipcard_type: m.tipcard_type, icon_id: m.icon_id, topic_color: m.topic_color, prompt_template: m.prompt_template, total_cards: m.total_cards, due_cards: m.due_cards, pending_cards: m.pending_cards, completed_cards: 0i64, daily_card_count: 0u32, daily_time_zone: Seq::empty(), daily_update_time: Seq::empty(), compression_level: Seq::empty(), grounding_strategy: Seq::empty(), image_strategy: Seq::empty() };
    let s8 = seg_i64(9, m.pending_cards);
    assert(merge_fields(s8, x8) == Some(x9) && fields_wf(s8)) by {
        lemma_zero_i64(m.pending_cards);
        lemma_seg_u64::<SpecAppTopicInfo>(9, m.pending_cards as u64, x8);
    }
    let p8 = p7 + s8;
    lemma_chain::<SpecAppTopicInfo>(p7, s8, x0, x8, x9);
    let x10 = SpecAppTopicInfo { id: m.id, name: m.name, tipcard_type: m.tipcard_type, icon_id: m.icon_id, topic_color: m.topic_color, prompt_template: m.prompt_template, total_cards: m.total_cards, due_cards: m.due_cards, pending_cards: m.pending_cards, completed_cards: m.completed_cards, daily_card_count: 0u32, daily_time_zone: Seq::empty(), daily_update_time: Seq::empty(), compression_level: Seq::empty(), grounding_strategy: Seq::empty(), image_strategy: Seq::empty() };
    let s9 = seg_i64(10, m.completed_cards);
    assert(merge_fields(s9, x9) == Some(x10) && fields_wf(s9)) by {
        lemma_zero_i64(m.completed_cards);
        lemma_seg_u64::<SpecAppTopicInfo>(10, m.completed_cards as u64, x9);
    }
    let p9 = p8 + s9;
    lemma_chain::<SpecAppTopicInfo>(p8, s9, x0, x9, x10);
    let x11 = SpecAppTopicInfo { id: m.id, name: m.name, tipcard_type: m.tipcard_type, icon_id: m.icon_id, topic_color: m.topic_color, prompt_template: m.prompt_template, total_cards: m.total_cards, due_cards: m.due_cards, pending_cards: m.pending_cards, completed_cards: m.completed_cards, daily_card_count: m.daily_card_count, daily_time_zone: Seq::empty(), daily_update_time: Seq::empty(), compression_level: Seq::empty(), grounding_strategy: Seq::empty(), image_strategy: Seq::empty() };
    let s10 = seg_u32(11, m.daily_card_count);
    assert(merge_fields(s10, x10) == Some(x11) && fields_wf(s10)) by {
        lemma_seg_u64::<SpecAppTopicInfo>(11, m.daily_card_count as u64, x10);
    }
    let p10 = p9 + s10;
    lemma_chain::<SpecAppTopicInfo>(p9, s10, x0, x10, x11);
    let x12 = SpecAppTopicInfo { id: m.id, name: m.name, tipcard_type: m.tipcard_type, icon_id: m.icon_id, topic_color: m.topic_color, prompt_template: m.prompt_template, total_cards: m.total_cards, due_cards: m.due_cards, pending_cards: m.pending_cards, completed_cards: m.completed_cards, daily_card_count: m.daily_card_count, daily_time_zone: m.daily_time_zone, daily_update_time: Seq::empty(), compression_level: Seq::empty(), grounding_strategy: Seq::empty(), image_strategy: Seq::empty() };
    let s11 = seg_str(12, m.daily_time_zone);
    assert(merge_fields(s11, x11) == Some(x12) && fields_wf(s11)) by {
        if m.daily_time_zone.len() == 0 { assert(m.daily_time_zone =~= Seq::<char>::empty()); lemma_seg_empty::<SpecAppTopicInfo>(x11); } else { lemma_seg_len::<SpecAppTopicInfo>(12, encode_utf8(m.daily_time_zone), x11); }
    }
    let p11 = p10 + s11;
    lemma_chain::<SpecAppTopicInfo>(p10, s11, x0, x11, x12);
    let x13 = SpecAppTopicInfo { id: m.id, name: m.name, tipcard_type: m.tipcard_type, icon_id: m.icon_id, topic_color: m.topic_color, prompt_template: m.prompt_template, total_cards: m.total_cards, due_cards: m.due_cards, pending_cards: m.pending_cards, completed_cards: m.completed_cards, daily_card_count: m.daily_card_count, daily_time_zone: m.daily_time_zone, daily_update_time: m.daily_update_time, compression_level: Seq::empty(), grounding_strategy: Seq::empty(), image_strategy: Seq::empty() };
    let s12 = seg_str(13, m.daily_update_time);
    assert(merge_fields(s12, x12) == Some(x13) && fields_wf(s12)) by {
        if m.daily_update_time.len() == 0 { assert(m.daily_update_time =~= Seq::<char>::empty()); lemma_seg_empty::<SpecAppTopicInfo>(x12); } else { lemma_seg_len::<SpecAppTopicInfo>(13, encode_utf8(m.daily_update_time), x12); }
    }
    let p12 = p11 + s12;
    lemma_chain::<SpecAppTopicInfo>(p11, s12, x0, x12, x13);
    let x14 = SpecAppTopicInfo { id: m.id, name: m.name, tipcard_type: m.tipcard_type, icon_id: m.icon_id, topic_color: m.topic_color, prompt_template: m.prompt_template, total_cards: m.total_cards, due_cards: m.due_cards, pending_cards: m.pending_cards, completed_cards: m.completed_cards, daily_card_count: m.daily_card_count, daily_time_zone: m.daily_time_zone, daily_update_time: m.daily_update_time, compression_level: m.compression_level, grounding_strategy: Seq::empty(), image_strategy: Seq::empty() };
    let s13 = seg_str(14, m.compression_level);
    assert(merge_fields(s13, x13) == Some(x14) && fields_wf(s13)) by {
        if m.compression_level.len() == 0 { assert(m.compression_level =~= Seq::<char>::empty()); lemma_seg_empty::<SpecAppTopicInfo>(x13); } else { lemma_seg_len::<SpecAppTopicInfo>(14, encode_utf8(m.compression_level), x13); }
    }
    let p13 = p12 + s13;
    lemma_chain::<SpecAppTopicInfo>(p12, s13, x0, x13, x14);
    let x15 = SpecAppTopicInfo { id: m.id, name: m.name, tipcard_type: m.tipcard_type, icon_id: m.icon_id, topic_color: m.topic_color, prompt_template: m.prompt_template, total_cards: m.total_cards, due_cards: m.due_cards, pending_cards: m.pending_cards, completed_cards: m.completed_cards, daily_card_count: m.daily_card_count, daily_time_zone: m.daily_time_zone, daily_update_time: m.daily_update_time, compression_level: m.compression_level, grounding_strategy: m.grounding_strategy, image_strategy: Seq::empty() };
    let s14 = seg_str(15, m.grounding_strategy);
    assert(merge_fields(s14, x14) == Some(x15) && fields_wf(s14)) by {
        if m.grounding_strategy.len() == 0 { assert(m.grounding_strategy =~= Seq::<char>::empty()); lemma_seg_empty::<SpecAppTopicInfo>(x14); } else { lemma_seg_len::<SpecAppTopicInfo>(15, encode_utf8(m.grounding_strategy), x14); }
    }
    let p14 = p13 + s14;
    lemma_chain::<SpecAppTopicInfo>(p13, s14, x0, x14, x15);
    let x16 = SpecAppTopicInfo { id: m.id, name: m.name, tipcard_type: m.tipcard_type, icon_id: m.icon_id, topic_color: m.topic_color, prompt_template: m.prompt_template, total_cards: m.total_cards, due_cards: m.due_cards, pending_cards: m.pending_cards, completed_cards: m.completed_cards, daily_card_count: m.daily_card_count, daily_time_zone: m.daily_time_zone, daily_update_time: m.daily_update_time, compression_level: m.compression_level, grounding_strategy: m.grounding_strategy, image_strategy: m.image_strategy };
    let s15 = seg_str(16, m.image_strategy);
    assert(merge_fields(s15, x15) == Some(x16) && fields_wf(s15)) by {
        if m.image_strategy.len() == 0 { assert(m.image_strategy =~= Seq::<char>::empty()); lemma_seg_empty::<SpecAppTopicInfo>(x15); } else { lemma_seg_len::<SpecAppTopicInfo>(16, encode_utf8(m.image_strategy), x15); }
    }
    let p15 = p14 + s15;
    lemma_chain::<SpecAppTopicInfo>(p14, s15, x0, x15, x16);
    assert(x16 == m);
}

/// A `AppTopicInfo` whose encoding has a length that fits a varint is well-formed.
pub proof fn lemma_wf_app_topic_info(m: SpecAppTopicInfo)
    requires
        fits(m.encoded()),
    ensures
        m.wf(),
{
    reveal(SpecAppTopicInfo::fields);
    reveal(SpecAppTopicInfo::wf);
    let s0 = seg_i64(1, m.id);
    let p0 = s0;
    let s1 = seg_str(2, m.name);
    let p1 = p0 + s1;
    let s2 = seg_str(3, m.tipcard_type);
    let p2 = p1 + s2;
    let s3 = seg_str(4, m.icon_id);
    let p3 = p2 + s3;
    let s4 = seg_str(5, m.topic_color);
    let p4 = p3 + s4;
    let s5 = seg_str(6, m.prompt_template);
    let p5 = p4 + s5;
    let s6 = seg_i64(7, m.total_cards);
    let p6 = p5 + s6;
    let s7 = seg_i64(8, m.due_cards);
    let p7 = p6 + s7;
    let s8 = seg_i64(9, m.pending_cards);
    let p8 = p7 + s8;
    let s9 = seg_i64(10, m.completed_cards);
    let p9 = p8 + s9;
    let s10 = seg_u32(11, m.daily_card_count);
    let p10 = p9 + s10;
    let s11 = seg_str(12, m.daily_time_zone);
    let p11 = p10 + s11;
    let s12 = seg_str(13, m.daily_update_time);
    let p12 = p11 + s12;
    let s13 = seg_str(14, m.compression_level);
    let p13 = p12 + s13;
    let s14 = seg_str(15, m.grounding_strategy);
    let p14 = p13 + s14;
    let s15 = seg_str(16, m.image_strategy);
    let p15 = p14 + s15;
    lemma_fits_parts(p14, s15);
    lemma_fits_parts(p13, s14);
    lemma_fits_parts(p12, s13);
    lemma_fits_parts(p11, s12);
    lemma_fits_parts(p10, s11);
    lemma_fits_parts(p9, s10);
    lemma_fits_parts(p8, s9);
    lemma_fits_parts(p7, s8);
    lemma_fits_parts(p6, s7);
    lemma_fits_parts(p5, s6);
    lemma_fits_parts(p4, s5);
    lemma_fits_parts(p3, s4);
    lemma_fits_parts(p2, s3);
    lemma_fits_parts(p1, s2);
    lemma_fits_parts(p0, s1);
    lemma_fits_seg_str(2, m.name);
    lemma_fits_seg_str(3, m.tipcard_type);
    lemma_fits_seg_str(4, m.icon_id);
    lemma_fits_seg_str(5, m.topic_color);
    lemma_fits_seg_str(6, m.prompt_template);
    lemma_fits_seg_str(12, m.daily_time_zone);
    lemma_fits_seg_str(13, m.daily_update_time);
    lemma_fits_seg_str(14, m.compression_level);
    lemma_fits_seg_str(15, m.grounding_strategy);
    lemma_fits_seg_str(16, m.image_strategy);
}

/// The topics.
#[derive(Clone, Debug, PartialEq, Default)]
pub struct AppTopicListResponse {
    pub topics: Vec<AppTopicInfo>,
}

/// The value of a [`AppTopicListResponse`].
pub struct SpecAppTopicListResponse {
    pub topics: Seq<SpecAppTopicInfo>,
}

impl View for AppTopicListResponse {
    type V = SpecAppTopicListResponse;

    open spec fn view(&self) -> SpecAppTopicListResponse {
        SpecAppTopicListResponse {
            topics: Seq::new(self.topics@.len(), |i: int| self.topics@[i]@),
        }
    }
}

impl SpecAppTopicListResponse {
    /// Every field at its default.
    pub open spec fn empty() -> SpecAppTopicListResponse {
        SpecAppTopicListResponse {
            topics: Seq::empty(),
        }
    }

    /// The fields written for this value, in field-number order.
    #[verifier::opaque]
    pub open spec fn fields(self) -> Seq<SpecField> {
        seg_rep(1, SpecAppTopicInfo::encode_all(self.topics))
    }

    pub open spec fn encoded(self) -> Seq<u8> {
        encode_fields(self.fields())
    }

    pub open spec fn encode_all(v: Seq<SpecAppTopicListResponse>) -> Seq<Seq<u8>> {
        Seq::new(v.len(), |i: int| v[i].encoded())
    }

    /// Every length-delimited payload fits a varint length.
    #[verifier::opaque]
    pub open spec fn wf(self) -> bool {
        (forall|i: int| 0 <= i < self.topics.len() ==> (#[trigger] self.topics[i]).wf() && fits(self.topics[i].encoded()))
    }
}

impl Message for SpecAppTopicListResponse {
    open spec fn merge(self, f: SpecField) -> Option<SpecAppTopicListResponse> {
        if f.number == 1 {
            match merge_nested(f.value, SpecAppTopicInfo::empty()) { Some(c) => Some(SpecAppTopicListResponse { topics: self.topics.push(c), ..self }), None => None }
        } else {
            Some(self)
        }
    }
}

impl WireMessage for AppTopicListResponse {
    type Spec = SpecAppTopicListResponse;

    open spec fn spec_of(&self) -> SpecAppTopicListResponse {
        self@
    }

    open spec fn spec_default() -> SpecAppTopicListResponse {
        SpecAppTopicListResponse::empty()
    }

    fn default_value() -> (r: Self) {
        let r = AppTopicListResponse {
            topics: Vec::new(),
        };
        assert(r@.topics =~= Seq::empty());
        r
    }

    fn merge_raw(&mut self, buf: &[u8], f: &RawField) -> (ok: bool) {
        if f.number == 1 {
            match raw_nested(buf, f, AppTopicInfo::default_value()) { Some(c) => { self.topics.push(c); proof { assert(self@.topics =~= old(self)@.topics.push(self.topics@.last()@)); } true }, None => false }
        } else {
            true
        }
    }
}

impl AppTopicListResponse {
    /// Appends the protobuf encoding of this message.
    pub fn encode_to(&self, out: &mut Vec<u8>)
        ensures
            final(out)@ == old(out)@ + self@.encoded(),
    {
        let ghost start = out@;
        proof {
            reveal(SpecAppTopicListResponse::fields);
        }
        let ghost s0 = seg_rep(1, SpecAppTopicInfo::encode_all(self@.topics));
        AppTopicInfo::put_repeated(out, 1, &self.topics);
        let ghost p0 = s0;
        assert(out@ =~= start + encode_fields(p0));
        assert(out@ =~= start + self@.encoded());
    }

    /// The protobuf encoding of this message.
    pub fn encode_to_vec(&self) -> (r: Vec<u8>)
        ensures
            r@ == self@.encoded(),
    {
        let mut out: Vec<u8> = Vec::new();
        self.encode_to(&mut out);
        assert(out@ =~= self@.encoded());
        out
    }

    /// Decodes a message; `None` where the bytes are not a valid encoding.
    pub fn decode(buf: &[u8]) -> (r: Option<AppTopicListResponse>)
        ensures
            match decode_into(buf@, SpecAppTopicListResponse::empty()) {
                Some(m) => r matches Some(v) && v@ == m,
                None => r is None,
            },
    {
        decode_message::<AppTopicListResponse>(buf)
    }

    /// Appends one length-delimited field `n` per element of `v`.
    pub fn put_repeated(out: &mut Vec<u8>, n: u32, v: &Vec<AppTopicListResponse>)
        requires
            1 <= n <= MAX_FIELD_NUMBER,
        ensures
            final(out)@ == old(out)@ + encode_fields(seg_rep(n, SpecAppTopicListResponse::encode_all(Seq::new(v@.len(), |i: int| v@[i]@)))),
    {
        let ghost all = SpecAppTopicListResponse::encode_all(Seq::new(v@.len(), |i: int| v@[i]@));
        let mut part: Vec<u8> = Vec::new();
        let mut i: usize = 0;
        proof {
            lemma_seg_rep_full(n, all);
            lemma_encode_empty();
        }
        while i < v.len()
            invariant
                1 <= n <= MAX_FIELD_NUMBER,
                i <= v@.len(),
                all == SpecAppTopicListResponse::encode_all(Seq::new(v@.len(), |i: int| v@[i]@)),
                part@ == encode_fields(seg_rep(n, all.take(i as int))),
            decreases v@.len() - i,
        {
            let b = v[i].encode_to_vec();
            proof {
                assert(all.take(i as int).push(b@) =~= all.take(i + 1));
            }
            put_rep_item(&mut part, n, b.as_slice(), Ghost(all.take(i as int)));
            i = i + 1;
        }
        proof {
            lemma_seg_rep_full(n, all);
        }
        append_all(out, &part);
    }
}

proof fn lemma_app_topic_list_response_rep_topics(v: Seq<SpecAppTopicInfo>, x: SpecAppTopicListResponse)
    requires
        forall|i: int| 0 <= i < v.len() ==> (#[trigger] v[i]).wf(),
    ensures
        merge_fields(seg_rep(1, SpecAppTopicInfo::encode_all(v)), x) == Some(SpecAppTopicListResponse { topics: x.topics + v, ..x }),
    decreases v.len(),
{
    if v.len() == 0 {
        lemma_rep_empty(1, SpecAppTopicInfo::encode_all(v));
        lemma_seg_empty::<SpecAppTopicListResponse>(x);
        assert(x.topics + v =~= x.topics);
    } else {
        let w = v.drop_last();
        lemma_app_topic_list_response_rep_topics(w, x);
        assert(SpecAppTopicInfo::encode_all(v).drop_last() =~= SpecAppTopicInfo::encode_all(w));
        lemma_rep_split(1, SpecAppTopicInfo::encode_all(v));
        lemma_merge_fields_append(seg_rep(1, SpecAppTopicInfo::encode_all(w)), seq![lfield(1, v.last().encoded())], x);
        let y = SpecAppTopicListResponse { topics: x.topics + w, ..x };
        lemma_merge_one(lfield(1, v.last().encoded()), y);
        lemma_round_app_topic_info(v.last());
        lemma_decode_encode_fields(v.last().fields(), SpecAppTopicInfo::empty());
        assert((x.topics + w).push(v.last()) =~= x.topics + v);
    }
}

/// Decoding the fields of a well-formed `AppTopicListResponse` gives it back.
pub proof fn lemma_round_app_topic_list_response(m: SpecAppTopicListResponse)
    requires
        m.wf(),
    ensures
        merge_fields(m.fields(), SpecAppTopicListResponse::empty()) == Some(m),
        fields_wf(m.fields()),
{
    reveal(SpecAppTopicListResponse::fields);
    reveal(SpecAppTopicListResponse::wf);
    let x0 = SpecAppTopicListResponse::empty();
    let x1 = SpecAppTopicListResponse { topics: m.topics };
    let s0 = seg_rep(1, SpecAppTopicInfo::encode_all(m.topics));
    assert(merge_fields(s0, x0) == Some(x1) && fields_wf(s0)) by {
        lemma_app_topic_list_response_rep_topics(m.topics, x0);
        assert forall|i: int| 0 <= i < SpecAppTopicInfo::encode_all(m.topics).len() implies fits(#[trigger] SpecAppTopicInfo::encode_all(m.topics)[i]) by { assert(m.topics[i].wf() && fits(m.topics[i].encoded())); }
        lemma_rep_wf(1, SpecAppTopicInfo::encode_all(m.topics));
        assert(x0.topics + m.topics =~= m.topics);
    }
    let p0 = s0;
    assert(x1 == m);
}

/// A `AppTopicListResponse` whose encoding has a length that fits a varint is well-formed.
pub proof fn lemma_wf_app_topic_list_response(m: SpecAppTopicListResponse)
    requires
        fits(m.encoded()),
    ensures
        m.wf(),
{
    reveal(SpecAppTopicListResponse::fields);
    reveal(SpecAppTopicListResponse::wf);
    let s0 = seg_rep(1, SpecAppTopicInfo::encode_all(m.topics));
    let p0 = s0;
    lemma_fits_seg_rep(1, SpecAppTopicInfo::encode_all(m.topics));
    assert forall|i: int| 0 <= i < m.topics.len() implies (#[trigger] m.topics[i]).wf() && fits(m.topics[i].encoded()) by { assert(fits(SpecAppTopicInfo::encode_all(m.topics)[i])); lemma_wf_app_topic_info(m.topics[i]); }
}

/// A grounding document without its content.
#[derive(Clone, Debug, PartialEq, Default)]
pub struct DocumentInfo {
    pub id: i64,
    pub topic_ids: Vec<i64>,
    pub source_type: String,
    pub title: String,
    pub url: String,
    pub created_at: String,
}

/// The value of a [`DocumentInfo`].
pub struct SpecDocumentInfo {
    pub id: i64,
    pub topic_ids: Seq<i64>,
    pub source_type: Seq<char>,
    pub title: Seq<char>,
    pub url: Seq<char>,
    pub created_at: Seq<char>,
}

impl View for DocumentInfo {
    type V = SpecDocumentInfo;

    open spec fn view(&self) -> SpecDocumentInfo {
        SpecDocumentInfo {
            id: self.id,
            topic_ids: self.topic_ids@,
            source_type: self.source_type@,
            title: self.title@,
            url: self.url@,
            created_at: self.created_at@,
        }
    }
}

impl SpecDocumentInfo {
    /// Every field at its default.
    pub open spec fn empty() -> SpecDocumentInfo {
        SpecDocumentInfo {
            id: 0i64,
            topic_ids: Seq::empty(),
            source_type: Seq::empty(),
            title: Seq::empty(),
            url: Seq::empty(),
            created_at: Seq::empty(),
        }
    }

    /// The fields written for this value, in field-number order.
    #[verifier::opaque]
    pub open spec fn fields(self) -> Seq<SpecField> {
        seg_i64(1, self.id)
            + seg_packed_i64(2, self.topic_ids)
            + seg_str(3, self.source_type)
            + seg_str(4, self.title)
            + seg_str(5, self.url)
            + seg_str(6, self.created_at)
    }

    pub open spec fn encoded(self) -> Seq<u8> {
        encode_fields(self.fields())
    }

    pub open spec fn encode_all(v: Seq<SpecDocumentInfo>) -> Seq<Seq<u8>> {
        Seq::new(v.len(), |i: int| v[i].encoded())
    }

    /// Every length-delimited payload fits a varint length.
    #[verifier::opaque]
    pub open spec fn wf(self) -> bool {
        fits(packed_bytes(i64s_as_u64s(self.topic_ids)))
        && fits(encode_utf8(self.source_type))
        && fits(encode_utf8(self.title))
        && fits(encode_utf8(self.url))
        && fits(encode_utf8(self.created_at))
    }
}

impl Message for SpecDocumentInfo {
    open spec fn merge(self, f: SpecField) -> Option<SpecDocumentInfo> {
        if f.number == 1 {
            match as_varint(f.value) { Some(v) => Some(SpecDocumentInfo { id: v as i64, ..self }), None => None }
        } else if f.number == 2 {
            match as_i64s(f.value) { Some(vs) => Some(SpecDocumentInfo { topic_ids: self.topic_ids + vs, ..self }), None => None }
        } else if f.number == 3 {
            match as_string(f.value) { Some(s) => Some(SpecDocumentInfo { source_type: s, ..self }), None => None }
        } else if f.number == 4 {
            match as_string(f.value) { Some(s) => Some(SpecDocumentInfo { title: s, ..self }), None => None }
        } else if f.number == 5 {
            match as_string(f.value) { Some(s) => Some(SpecDocumentInfo { url: s, ..self }), None => None }
        } else if f.number == 6 {
            match as_string(f.value) { Some(s) => Some(SpecDocumentInfo { created_at: s, ..self }), None => None }
        } else {
            Some(self)
        }
    }
}

impl WireMessage for DocumentInfo {
    type Spec = SpecDocumentInfo;

    open spec fn spec_of(&self) -> SpecDocumentInfo {
        self@
    }

    open spec fn spec_default() -> SpecDocumentInfo {
        SpecDocumentInfo::empty()
    }

    fn default_value() -> (r: Self) {
        let r = DocumentInfo {
            id: 0,
            topic_ids: Vec::new(),
            source_type: String::new(),
            title: String::new(),
            url: String::new(),
            created_at: String::new(),
        };
        r
    }

    fn merge_raw(&mut self, buf: &[u8], f: &RawField) -> (ok: bool) {
        if f.number == 1 {
            match raw_varint(f) { Some(v) => { self.id = v as i64; true }, None => false }
        } else if f.number == 2 {
            match raw_i64s(buf, f) { Some(vs) => { extend_i64(&mut self.topic_ids, &vs); true }, None => false }
        } else if f.number == 3 {
            match raw_string(buf, f) { Some(s) => { self.source_type = s; true }, None => false }
        } else if f.number == 4 {
            match raw_string(buf, f) { Some(s) => { self.title = s; true }, None => false }
        } else if f.number == 5 {
            match raw_string(buf, f) { Some(s) => { self.url = s; true }, None => false }
        } else if f.number == 6 {
            match raw_string(buf, f) { Some(s) => { self.created_at = s; true }, None => false }
        } else {
            true
        }
    }
}

impl DocumentInfo {
    /// Appends the protobuf encoding of this message.
    pub fn encode_to(&self, out: &mut Vec<u8>)
        ensures
            final(out)@ == old(out)@ + self@.encoded(),
    {
        let ghost start = out@;
        proof {
            reveal(SpecDocumentInfo::fields);
        }
        let ghost s0 = seg_i64(1, self@.id);
        put_i64(out, 1, self.id);
        let ghost p0 = s0;
        assert(out@ =~= start + encode_fields(p0));
        let ghost s1 = seg_packed_i64(2, self@.topic_ids);
        put_packed_i64(out, 2, &self.topic_ids);
        let ghost p1 = p0 + s1;
        proof {
            lemma_encode_fields_append(p0, s1);
        }
        assert(out@ =~= start + encode_fields(p1));
        let ghost s2 = seg_str(3, self@.source_type);
        put_str(out, 3, self.source_type.as_str());
        let ghost p2 = p1 + s2;
        proof {
            lemma_encode_fields_append(p1, s2);
        }
        assert(out@ =~= start + encode_fields(p2));
        let ghost s3 = seg_str(4, self@.title);
        put_str(out, 4, self.title.as_str());
        let ghost p3 = p2 + s3;
        proof {
            lemma_encode_fields_append(p2, s3);
        }
        assert(out@ =~= start + encode_fields(p3));
        let ghost s4 = seg_str(5, self@.url);
        put_str(out, 5, self.url.as_str());
        let ghost p4 = p3 + s4;
        proof {
            lemma_encode_fields_append(p3, s4);
        }
        assert(out@ =~= start + encode_fields(p4));
        let ghost s5 = seg_str(6, self@.created_at);
        put_str(out, 6, self.created_at.as_str());
        let ghost p5 = p4 + s5;
        proof {
            lemma_encode_fields_append(p4, s5);
        }
        assert(out@ =~= start + encode_fields(p5));
        assert(out@ =~= start + self@.encoded());
    }

    /// The protobuf encoding of this message.
    pub fn encode_to_vec(&self) -> (r: Vec<u8>)
        ensures
            r@ == self@.encoded(),
    {
        let mut out: Vec<u8> = Vec::new();
        self.encode_to(&mut out);
        assert(out@ =~= self@.encoded());
        out
    }

    /// Decodes a message; `None` where the bytes are not a valid encoding.
    pub fn decode(buf: &[u8]) -> (r: Option<DocumentInfo>)
        ensures
            match decode_into(buf@, SpecDocumentInfo::empty()) {
                Some(m) => r matches Some(v) && v@ == m,
                None => r is None,
            },
    {
        decode_message::<DocumentInfo>(buf)
    }

    /// Appends one length-delimited field `n` per element of `v`.
    pub fn put_repeated(out: &mut Vec<u8>, n: u32, v: &Vec<DocumentInfo>)
        requires
            1 <= n <= MAX_FIELD_NUMBER,
        ensures
            final(out)@ == old(out)@ + encode_fields(seg_rep(n, SpecDocumentInfo::encode_all(Seq::new(v@.len(), |i: int| v@[i]@)))),
    {
        let ghost all = SpecDocumentInfo::encode_all(Seq::new(v@.len(), |i: int| v@[i]@));
        let mut part: Vec<u8> = Vec::new();
        let mut i: usize = 0;
        proof {
            lemma_seg_rep_full(n, all);
            lemma_encode_empty();
        }
        while i < v.len()
            invariant
                1 <= n <= MAX_FIELD_NUMBER,
                i <= v@.len(),
                all == SpecDocumentInfo::encode_all(Seq::new(v@.len(), |i: int| v@[i]@)),
                part@ == encode_fields(seg_rep(n, all.take(i as int))),
            decreases v@.len() - i,
        {
            let b = v[i].encode_to_vec();
            proof {
                assert(all.take(i as int).push(b@) =~= all.take(i + 1));
            }
            put_rep_item(&mut part, n, b.as_slice(), Ghost(all.take(i as int)));
            i = i + 1;
        }
        proof {
            lemma_seg_rep_full(n, all);
        }
        append_all(out, &part);
    }
}

/// Decoding the fields of a well-formed `DocumentInfo` gives it back.
pub proof fn lemma_round_document_info(m: SpecDocumentInfo)
    requires
        m.wf(),
    ensures
        merge_fields(m.fields(), SpecDocumentInfo::empty()) == Some(m),
        fields_wf(m.fields()),
{
    reveal(SpecDocumentInfo::fields);
    reveal(SpecDocumentInfo::wf);
    let x0 = SpecDocumentInfo::empty();
    let x1 = SpecDocumentInfo { id: m.id, topic_ids: Seq::empty(), source_type: Seq::empty(), title: Seq::empty(), url: Seq::empty(), created_at: Seq::empty() };
    let s0 = seg_i64(1, m.id);
    assert(merge_fields(s0, x0) == Some(x1) && fields_wf(s0)) by {
        lemma_zero_i64(m.id);
        lemma_seg_u64::<SpecDocumentInfo>(1, m.id as u64, x0);
    }
    let p0 = s0;
    let x2 = SpecDocumentInfo { id: m.id, topic_ids: m.topic_ids, source_type: Seq::empty(), title: Seq::empty(), url: Seq::empty(), created_at: Seq::empty() };
    let s1 = seg_packed_i64(2, m.topic_ids);
    assert(merge_fields(s1, x1) == Some(x2) && fields_wf(s1)) by {
        if m.topic_ids.len() == 0 { assert(m.topic_ids =~= Seq::<i64>::empty()); lemma_seg_empty::<SpecDocumentInfo>(x1); } else { lemma_seg_len::<SpecDocumentInfo>(2, packed_bytes(i64s_as_u64s(m.topic_ids)), x1); lemma_i64s_round(m.topic_ids); }
        assert(Seq::<i64>::empty() + m.topic_ids =~= m.topic_ids);
    }
    let p1 = p0 + s1;
    lemma_chain::<SpecDocumentInfo>(p0, s1, x0, x1, x2);
    let x3 = SpecDocumentInfo { id: m.id, topic_ids: m.topic_ids, source_type: m.source_type, title: Seq::empty(), url: Seq::empty(), created_at: Seq::empty() };
    let s2 = seg_str(3, m.source_type);
    assert(merge_fields(s2, x2) == Some(x3) && fields_wf(s2)) by {
        if m.source_type.len() == 0 { assert(m.source_type =~= Seq::<char>::empty()); lemma_seg_empty::<SpecDocumentInfo>(x2); } else { lemma_seg_len::<SpecDocumentInfo>(3, encode_utf8(m.source_type), x2); }
    }
    let p2 = p1 + s2;
    lemma_chain::<SpecDocumentInfo>(p1, s2, x0, x2, x3);
    let x4 = SpecDocumentInfo { id: m.id, topic_ids: m.topic_ids, source_type: m.source_type, title: m.title, url: Seq::empty(), created_at: Seq::empty() };
    let s3 = seg_str(4, m.title);
    assert(merge_fields(s3, x3) == Some(x4) && fields_wf(s3)) by {
        if m.title.len() == 0 { assert(m.title =~= Seq::<char>::empty()); lemma_seg_empty::<SpecDocumentInfo>(x3); } else { lemma_seg_len::<SpecDocumentInfo>(4, encode_utf8(m.title), x3); }
    }
    let p3 = p2 + s3;
    lemma_chain::<SpecDocumentInfo>(p2, s3, x0, x3, x4);
    let x5 = SpecDocumentInfo { id: m.id, topic_ids: m.topic_ids, source_type: m.source_type, title: m.title, url: m.url, created_at: Seq::empty() };
    let s4 = seg_str(5, m.url);
    assert(merge_fields(s4, x4) == Some(x5) && fields_wf(s4)) by {
        if m.url.len() == 0 { assert(m.url =~= Seq::<char>::empty()); lemma_seg_empty::<SpecDocumentInfo>(x4); } else { lemma_seg_len::<SpecDocumentInfo>(5, encode_utf8(m.url), x4); }
    }
    let p4 = p3 + s4;
    lemma_chain::<SpecDocumentInfo>(p3, s4, x0, x4, x5);
    let x6 = SpecDocumentInfo { id: m.id, topic_ids: m.topic_ids, source_type: m.source_type, title: m.title, url: m.url, created_at: m.created_at };
    let s5 = seg_str(6, m.created_at);
    assert(merge_fields(s5, x5) == Some(x6) && fields_wf(s5)) by {
        if m.created_at.len() == 0 { assert(m.created_at =~= Seq::<char>::empty()); lemma_seg_empty::<SpecDocumentInfo>(x5); } else { lemma_seg_len::<SpecDocumentInfo>(6, encode_utf8(m.created_at), x5); }
    }
    let p5 = p4 + s5;
    lemma_chain::<SpecDocumentInfo>(p4, s5, x0, x5, x6);
    assert(x6 == m);
}

/// A `DocumentInfo` whose encoding has a length that fits a varint is well-formed.
pub proof fn lemma_wf_document_info(m: SpecDocumentInfo)
    requires
        fits(m.encoded()),
    ensures
        m.wf(),
{
    reveal(SpecDocumentInfo::fields);
    reveal(SpecDocumentInfo::wf);
    let s0 = seg_i64(1, m.id);
    let p0 = s0;
    let s1 = seg_packed_i64(2, m.topic_ids);
    let p1 = p0 + s1;
    let s2 = seg_str(3, m.source_type);
    let p2 = p1 + s2;
    let s3 = seg_str(4, m.title);
    let p3 = p2 + s3;
    let s4 = seg_str(5, m.url);
    let p4 = p3 + s4;
    let s5 = seg_str(6, m.created_at);
    let p5 = p4 + s5;
    lemma_fits_parts(p4, s5);
    lemma_fits_parts(p3, s4);
    lemma_fits_parts(p2, s3);
    lemma_fits_parts(p1, s2);
    lemma_fits_parts(p0, s1);
    lemma_fits_seg_packed(2, m.topic_ids);
    lemma_fits_seg_str(3, m.source_type);
    lemma_fits_seg_str(4, m.title);
    lemma_fits_seg_str(5, m.url);
    lemma_fits_seg_str(6, m.created_at);
}

/// The grounding documents.
#[derive(Clone, Debug, PartialEq, Default)]
pub struct DocumentListResponse {
    pub docs: Vec<DocumentInfo>,
}

/// The value of a [`DocumentListResponse`].
pub struct SpecDocumentListResponse {
    pub docs: Seq<SpecDocumentInfo>,
}

impl View for DocumentListResponse {
    type V = SpecDocumentListResponse;

    open spec fn view(&self) -> SpecDocumentListResponse {
        SpecDocumentListResponse {
            docs: Seq::new(self.docs@.len(), |i: int| self.docs@[i]@),
        }
    }
}

impl SpecDocumentListResponse {
    /// Every field at its default.
    pub open spec fn empty() -> SpecDocumentListResponse {
        SpecDocumentListResponse {
            docs: Seq::empty(),
        }
    }

    /// The fields written for this value, in field-number order.
    #[verifier::opaque]
    pub open spec fn fields(self) -> Seq<SpecField> {
        seg_rep(1, SpecDocumentInfo::encode_all(self.docs))
    }

    pub open spec fn encoded(self) -> Seq<u8> {
        encode_fields(self.fields())
    }

    pub open spec fn encode_all(v: Seq<SpecDocumentListResponse>) -> Seq<Seq<u8>> {
        Seq::new(v.len(), |i: int| v[i].encoded())
    }

    /// Every length-delimited payload fits a varint length.
    #[verifier::opaque]
    pub open spec fn wf(self) -> bool {
        (forall|i: int| 0 <= i < self.docs.len() ==> (#[trigger] self.docs[i]).wf() && fits(self.docs[i].encoded()))
    }
}

impl Message for SpecDocumentListResponse {
    open spec fn merge(self, f: SpecField) -> Option<SpecDocumentListResponse> {
        if f.number == 1 {
            match merge_nested(f.value, SpecDocumentInfo::empty()) { Some(c) => Some(SpecDocumentListResponse { docs: self.docs.push(c), ..self }), None => None }
        } else {
            Some(self)
        }
    }
}

impl WireMessage for DocumentListResponse {
    type Spec = SpecDocumentListResponse;

    open spec fn spec_of(&self) -> SpecDocumentListResponse {
        self@
    }

    open spec fn spec_default() -> SpecDocumentListResponse {
        SpecDocumentListResponse::empty()
    }

    fn default_value() -> (r: Self) {
        let r = DocumentListResponse {
            docs: Vec::new(),
        };
        assert(r@.docs =~= Seq::empty());
        r
    }

    fn merge_raw(&mut self, buf: &[u8], f: &RawField) -> (ok: bool) {
        if f.number == 1 {
            match raw_nested(buf, f, DocumentInfo::default_value()) { Some(c) => { self.docs.push(c); proof { assert(self@.docs =~= old(self)@.docs.push(self.docs@.last()@)); } true }, None => false }
        } else {
            true
        }
    }
}

impl DocumentListResponse {
    /// Appends the protobuf encoding of this message.
    pub fn encode_to(&self, out: &mut Vec<u8>)
        ensures
            final(out)@ == old(out)@ + self@.encoded(),
    {
        let ghost start = out@;
        proof {
            reveal(SpecDocumentListResponse::fields);
        }
        let ghost s0 = seg_rep(1, SpecDocumentInfo::encode_all(self@.docs));
        DocumentInfo::put_repeated(out, 1, &self.docs);
        let ghost p0 = s0;
        assert(out@ =~= start + encode_fields(p0));
        assert(out@ =~= start + self@.encoded());
    }

    /// The protobuf encoding of this message.
    pub fn encode_to_vec(&self) -> (r: Vec<u8>)
        ensures
            r@ == self@.encoded(),
    {
        let mut out: Vec<u8> = Vec::new();
        self.encode_to(&mut out);
        assert(out@ =~= self@.encoded());
        out
    }

    /// Decodes a message; `None` where the bytes are not a valid encoding.
    pub fn decode(buf: &[u8]) -> (r: Option<DocumentListResponse>)
        ensures
            match decode_into(buf@, SpecDocumentListResponse::empty()) {
                Some(m) => r matches Some(v) && v@ == m,
                None => r is None,
            },
    {
        decode_message::<DocumentListResponse>(buf)
    }

    /// Appends one length-delimited field `n` per element of `v`.
    pub fn put_repeated(out: &mut Vec<u8>, n: u32, v: &Vec<DocumentListResponse>)
        requires
            1 <= n <= MAX_FIELD_NUMBER,
        ensures
            final(out)@ == old(out)@ + encode_fields(seg_rep(n, SpecDocumentListResponse::encode_all(Seq::new(v@.len(), |i: int| v@[i]@)))),
    {
        let ghost all = SpecDocumentListResponse::encode_all(Seq::new(v@.len(), |i: int| v@[i]@));
        let mut part: Vec<u8> = Vec::new();
        let mut i: usize = 0;
        proof {
            lemma_seg_rep_full(n, all);
            lemma_encode_empty();
        }
        while i < v.len()
            invariant
                1 <= n <= MAX_FIELD_NUMBER,
                i <= v@.len(),
                all == SpecDocumentListResponse::encode_all(Seq::new(v@.len(), |i: int| v@[i]@)),
                part@ == encode_fields(seg_rep(n, all.take(i as int))),
            decreases v@.len() - i,
        {
            let b = v[i].encode_to_vec();
            proof {
                assert(all.take(i as int).push(b@) =~= all.take(i + 1));
            }
            put_rep_item(&mut part, n, b.as_slice(), Ghost(all.take(i as int)));
            i = i + 1;
        }
        proof {
            lemma_seg_rep_full(n, all);
        }
        append_all(out, &part);
    }
}

proof fn lemma_document_list_response_rep_docs(v: Seq<SpecDocumentInfo>, x: SpecDocumentListResponse)
    requires
        forall|i: int| 0 <= i < v.len() ==> (#[trigger] v[i]).wf(),
    ensures
        merge_fields(seg_rep(1, SpecDocumentInfo::encode_all(v)), x) == Some(SpecDocumentListResponse { docs: x.docs + v, ..x }),
    decreases v.len(),
{
    if v.len() == 0 {
        lemma_rep_empty(1, SpecDocumentInfo::encode_all(v));
        lemma_seg_empty::<SpecDocumentListResponse>(x);
        assert(x.docs + v =~= x.docs);
    } else {
        let w = v.drop_last();
        lemma_document_list_response_rep_docs(w, x);
        assert(SpecDocumentInfo::encode_all(v).drop_last() =~= SpecDocumentInfo::encode_all(w));
        lemma_rep_split(1, SpecDocumentInfo::encode_all(v));
        lemma_merge_fields_append(seg_rep(1, SpecDocumentInfo::encode_all(w)), seq![lfield(1, v.last().encoded())], x);
        let y = SpecDocumentListResponse { docs: x.docs + w, ..x };
        lemma_merge_one(lfield(1, v.last().encoded()), y);
        lemma_round_document_info(v.last());
        lemma_decode_encode_fields(v.last().fields(), SpecDocumentInfo::empty());
        assert((x.docs + w).push(v.last()) =~= x.docs + v);
    }
}

/// Decoding the fields of a well-formed `DocumentListResponse` gives it back.
pub proof fn lemma_round_document_list_response(m: SpecDocumentListResponse)
    requires
        m.wf(),
    ensures
        merge_fields(m.fields(), SpecDocumentListResponse::empty()) == Some(m),
        fields_wf(m.fields()),
{
    reveal(SpecDocumentListResponse::fields);
    reveal(SpecDocumentListResponse::wf);
    let x0 = SpecDocumentListResponse::empty();
    let x1 = SpecDocumentListResponse { docs: m.docs };
    let s0 = seg_rep(1, SpecDocumentInfo::encode_all(m.docs));
    assert(merge_fields(s0, x0) == Some(x1) && fields_wf(s0)) by {
        lemma_document_list_response_rep_docs(m.docs, x0);
        assert forall|i: int| 0 <= i < SpecDocumentInfo::encode_all(m.docs).len() implies fits(#[trigger] SpecDocumentInfo::encode_all(m.docs)[i]) by { assert(m.docs[i].wf() && fits(m.docs[i].encoded())); }
        lemma_rep_wf(1, SpecDocumentInfo::encode_all(m.docs));
        assert(x0.docs + m.docs =~= m.docs);
    }
    let p0 = s0;
    assert(x1 == m);
}

/// A `DocumentListResponse` whose encoding has a length that fits a varint is well-formed.
pub proof fn lemma_wf_document_list_response(m: SpecDocumentListResponse)
    requires
        fits(m.encoded()),
    ensures
        m.wf(),
{
    reveal(SpecDocumentListResponse::fields);
    reveal(SpecDocumentListResponse::wf);
    let s0 = seg_rep(1, SpecDocumentInfo::encode_all(m.docs));
    let p0 = s0;
    lemma_fits_seg_rep(1, SpecDocumentInfo::encode_all(m.docs));
    assert forall|i: int| 0 <= i < m.docs.len() implies (#[trigger] m.docs[i]).wf() && fits(m.docs[i].encoded()) by { assert(fits(SpecDocumentInfo::encode_all(m.docs)[i])); lemma_wf_document_info(m.docs[i]); }
}

/// A grounding document with its content.
#[derive(Clone, Debug, PartialEq, Default)]
pub struct DocumentDetailResponse {
    pub id: i64,
    pub source_type: String,
    pub title: String,
    pub url: String,
    pub content: String,
    pub created_at: String,
    pub topic_ids: Vec<i64>,
}

/// The value of a [`DocumentDetailResponse`].
pub struct SpecDocumentDetailResponse {
    pub id: i64,
    pub source_type: Seq<char>,
    pub title: Seq<char>,
    pub url: Seq<char>,
    pub content: Seq<char>,
    pub created_at: Seq<char>,
    pub topic_ids: Seq<i64>,
}

impl View for DocumentDetailResponse {
    type V = SpecDocumentDetailResponse;

    open spec fn view(&self) -> SpecDocumentDetailResponse {
        SpecDocumentDetailResponse {
            id: self.id,
            source_type: self.source_type@,
            title: self.title@,
            url: self.url@,
            content: self.content@,
            created_at: self.created_at@,
            topic_ids: self.topic_ids@,
        }
    }
}

impl SpecDocumentDetailResponse {
    /// Every field at its default.
    pub open spec fn empty() -> SpecDocumentDetailResponse {
        SpecDocumentDetailResponse {
            id: 0i64,
            source_type: Seq::empty(),
            title: Seq::empty(),
            url: Seq::empty(),
            content: Seq::empty(),
            created_at: Seq::empty(),
            topic_ids: Seq::empty(),
        }
    }

    /// The fields written for this value, in field-number order.
    #[verifier::opaque]
    pub open spec fn fields(self) -> Seq<SpecField> {
        seg_i64(1, self.id)
            + seg_str(2, self.source_type)
            + seg_str(3, self.title)
            + seg_str(4, self.url)
            + seg_str(5, self.content)
            + seg_str(6, self.created_at)
            + seg_packed_i64(7, self.topic_ids)
    }

    pub open spec fn encoded(self) -> Seq<u8> {
        encode_fields(self.fields())
    }

    pub open spec fn encode_all(v: Seq<SpecDocumentDetailResponse>) -> Seq<Seq<u8>> {
        Seq::new(v.len(), |i: int| v[i].encoded())
    }

    /// Every length-delimited payload fits a varint length.
    #[verifier::opaque]
    pub open spec fn wf(self) -> bool {
        fits(encode_utf8(self.source_type))
        && fits(encode_utf8(self.title))
        && fits(encode_utf8(self.url))
        && fits(encode_utf8(self.content))
        && fits(encode_utf8(self.created_at))
        && fits(packed_bytes(i64s_as_u64s(self.topic_ids)))
    }
}

impl Message for SpecDocumentDetailResponse {
    open spec fn merge(self, f: SpecField) -> Option<SpecDocumentDetailResponse> {
        if f.number == 1 {
            match as_varint(f.value) { Some(v) => Some(SpecDocumentDetailResponse { id: v as i64, ..self }), None => None }
        } else if f.number == 2 {
            match as_string(f.value) { Some(s) => Some(SpecDocumentDetailResponse { source_type: s, ..self }), None => None }
        } else if f.number == 3 {
            match as_string(f.value) { Some(s) => Some(SpecDocumentDetailResponse { title: s, ..self }), None => None }
        } else if f.number == 4 {
            match as_string(f.value) { Some(s) => Some(SpecDocumentDetailResponse { url: s, ..self }), None => None }
        } else if f.number == 5 {
            match as_string(f.value) { Some(s) => Some(SpecDocumentDetailResponse { content: s, ..self }), None => None }
        } else if f.number == 6 {
            match as_string(f.value) { Some(s) => Some(SpecDocumentDetailResponse { created_at: s, ..self }), None => None }
        } else if f.number == 7 {
            match as_i64s(f.value) { Some(vs) => Some(SpecDocumentDetailResponse { topic_ids: self.topic_ids + vs, ..self }), None => None }
        } else {
            Some(self)
        }
    }
}

impl WireMessage for DocumentDetailResponse {
    type Spec = SpecDocumentDetailResponse;

    open spec fn spec_of(&self) -> SpecDocumentDetailResponse {
        self@
    }

    open spec fn spec_default() -> SpecDocumentDetailResponse {
        SpecDocumentDetailResponse::empty()
    }

    fn default_value() -> (r: Self) {
        let r = DocumentDetailResponse {
            id: 0,
            source_type: String::new(),
            title: String::new(),
            url: String::new(),
            content: String::new(),
            created_at: String::new(),
            topic_ids: Vec::new(),
        };
        r
    }

    fn merge_raw(&mut self, buf: &[u8], f: &RawField) -> (ok: bool) {
        if f.number == 1 {
            match raw_varint(f) { Some(v) => { self.id = v as i64; true }, None => false }
        } else if f.number == 2 {
            match raw_string(buf, f) { Some(s) => { self.source_type = s; true }, None => false }
        } else if f.number == 3 {
            match raw_string(buf, f) { Some(s) => { self.title = s; true }, None => false }
        } else if f.number == 4 {
            match raw_string(buf, f) { Some(s) => { self.url = s; true }, None => false }
        } else if f.number == 5 {
            match raw_string(buf, f) { Some(s) => { self.content = s; true }, None => false }
        } else if f.number == 6 {
            match raw_string(buf, f) { Some(s) => { self.created_at = s; true }, None => false }
        } else if f.number == 7 {
            match raw_i64s(buf, f) { Some(vs) => { extend_i64(&mut self.topic_ids, &vs); true }, None => false }
        } else {
            true
        }
    }
}

impl DocumentDetailResponse {
    /// Appends the protobuf encoding of this message.
    pub fn encode_to(&self, out: &mut Vec<u8>)
        ensures
            final(out)@ == old(out)@ + self@.encoded(),
    {
        let ghost start = out@;
        proof {
            reveal(SpecDocumentDetailResponse::fields);
        }
        let ghost s0 = seg_i64(1, self@.id);
        put_i64(out, 1, self.id);
        let ghost p0 = s0;
        assert(out@ =~= start + encode_fields(p0));
        let ghost s1 = seg_str(2, self@.source_type);
        put_str(out, 2, self.source_type.as_str());
        let ghost p1 = p0 + s1;
        proof {
            lemma_encode_fields_append(p0, s1);
        }
        assert(out@ =~= start + encode_fields(p1));
        let ghost s2 = seg_str(3, self@.title);
        put_str(out, 3, self.title.as_str());
        let ghost p2 = p1 + s2;
        proof {
            lemma_encode_fields_append(p1, s2);
        }
        assert(out@ =~= start + encode_fields(p2));
        let ghost s3 = seg_str(4, self@.url);
        put_str(out, 4, self.url.as_str());
        let ghost p3 = p2 + s3;
        proof {
            lemma_encode_fields_append(p2, s3);
        }
        assert(out@ =~= start + encode_fields(p3));
        let ghost s4 = seg_str(5, self@.content);
        put_str(out, 5, self.content.as_str());
        let ghost p4 = p3 + s4;
        proof {
            lemma_encode_fields_append(p3, s4);
        }
        assert(out@ =~= start + encode_fields(p4));
        let ghost s5 = seg_str(6, self@.created_at);
        put_str(out, 6, self.created_at.as_str());
        let ghost p5 = p4 + s5;
        proof {
            lemma_encode_fields_append(p4, s5);
        }
        assert(out@ =~= start + encode_fields(p5));
        let ghost s6 = seg_packed_i64(7, self@.topic_ids);
        put_packed_i64(out, 7, &self.topic_ids);
        let ghost p6 = p5 + s6;
        proof {
            lemma_encode_fields_append(p5, s6);
        }
        assert(out@ =~= start + encode_fields(p6));
        assert(out@ =~= start + self@.encoded());
    }

    /// The protobuf encoding of this message.
    pub fn encode_to_vec(&self) -> (r: Vec<u8>)
        ensures
            r@ == self@.encoded(),
    {
        let mut out: Vec<u8> = Vec::new();
        self.encode_to(&mut out);
        assert(out@ =~= self@.encoded());
        out
    }

    /// Decodes a message; `None` where the bytes are not a valid encoding.
    pub fn decode(buf: &[u8]) -> (r: Option<DocumentDetailResponse>)
        ensures
            match decode_into(buf@, SpecDocumentDetailResponse::empty()) {
                Some(m) => r matches Some(v) && v@ == m,
                None => r is None,
            },
    {
        decode_message::<DocumentDetailResponse>(buf)
    }

    /// Appends one length-delimited field `n` per element of `v`.
    pub fn put_repeated(out: &mut Vec<u8>, n: u32, v: &Vec<DocumentDetailResponse>)
        requires
            1 <= n <= MAX_FIELD_NUMBER,
        ensures
            final(out)@ == old(out)@ + encode_fields(seg_rep(n, SpecDocumentDetailResponse::encode_all(Seq::new(v@.len(), |i: int| v@[i]@)))),
    {
        let ghost all = SpecDocumentDetailResponse::encode_all(Seq::new(v@.len(), |i: int| v@[i]@));
        let mut part: Vec<u8> = Vec::new();
        let mut i: usize = 0;
        proof {
            lemma_seg_rep_full(n, all);
            lemma_encode_empty();
        }
        while i < v.len()
            invariant
                1 <= n <= MAX_FIELD_NUMBER,
                i <= v@.len(),
                all == SpecDocumentDetailResponse::encode_all(Seq::new(v@.len(), |i: int| v@[i]@)),
                part@ == encode_fields(seg_rep(n, all.take(i as int))),
            decreases v@.len() - i,
        {
            let b = v[i].encode_to_vec();
            proof {
                assert(all.take(i as int).push(b@) =~= all.take(i + 1));
            }
            put_rep_item(&mut part, n, b.as_slice(), Ghost(all.take(i as int)));
            i = i + 1;
        }
        proof {
            lemma_seg_rep_full(n, all);
        }
        append_all(out, &part);
    }
}

/// Decoding the fields of a well-formed `DocumentDetailResponse` gives it back.
pub proof fn lemma_round_document_detail_response(m: SpecDocumentDetailResponse)
    requires
        m.wf(),
    ensures
        merge_fields(m.fields(), SpecDocumentDetailResponse::empty()) == Some(m),
        fields_wf(m.fields()),
{
    reveal(SpecDocumentDetailResponse::fields);
    reveal(SpecDocumentDetailResponse::wf);
    let x0 = SpecDocumentDetailResponse::empty();
    let x1 = SpecDocumentDetailResponse { id: m.id, source_type: Seq::empty(), title: Seq::empty(), url: Seq::empty(), content: Seq::empty(), created_at: Seq::empty(), topic_ids: Seq::empty() };
    let s0 = seg_i64(1, m.id);
    assert(merge_fields(s0, x0) == Some(x1) && fields_wf(s0)) by {
        lemma_zero_i64(m.id);
        lemma_seg_u64::<SpecDocumentDetailResponse>(1, m.id as u64, x0);
    }
    let p0 = s0;
    let x2 = SpecDocumentDetailResponse { id: m.id, source_type: m.source_type, title: Seq::empty(), url: Seq::empty(), content: Seq::empty(), created_at: Seq::empty(), topic_ids: Seq::empty() };
    let s1 = seg_str(2, m.source_type);
    assert(merge_fields(s1, x1) == Some(x2) && fields_wf(s1)) by {
        if m.source_type.len() == 0 { assert(m.source_type =~= Seq::<char>::empty()); lemma_seg_empty::<SpecDocumentDetailResponse>(x1); } else { lemma_seg_len::<SpecDocumentDetailResponse>(2, encode_utf8(m.source_type), x1); }
    }
    let p1 = p0 + s1;
    lemma_chain::<SpecDocumentDetailResponse>(p0, s1, x0, x1, x2);
    let x3 = SpecDocumentDetailResponse { id: m.id, source_type: m.source_type, title: m.title, url: Seq::empty(), content: Seq::empty(), created_at: Seq::empty(), topic_ids: Seq::empty() };
    let s2 = seg_str(3, m.title);
    assert(merge_fields(s2, x2) == Some(x3) && fields_wf(s2)) by {
        if m.title.len() == 0 { assert(m.title =~= Seq::<char>::empty()); lemma_seg_empty::<SpecDocumentDetailResponse>(x2); } else { lemma_seg_len::<SpecDocumentDetailResponse>(3, encode_utf8(m.title), x2); }
    }
    let p2 = p1 + s2;
    lemma_chain::<SpecDocumentDetailResponse>(p1, s2, x0, x2, x3);
    let x4 = SpecDocumentDetailResponse { id: m.id, source_type: m.source_type, title: m.title, url: m.url, content: Seq::empty(), created_at: Seq::empty(), topic_ids: Seq::empty() };
    let s3 = seg_str(4, m.url);
    assert(merge_fields(s3, x3) == Some(x4) && fields_wf(s3)) by {
        if m.url.len() == 0 { assert(m.url =~= Seq::<char>::empty()); lemma_seg_empty::<SpecDocumentDetailResponse>(x3); } else { lemma_seg_len::<SpecDocumentDetailResponse>(4, encode_utf8(m.url), x3); }
    }
    let p3 = p2 + s3;
    lemma_chain::<SpecDocumentDetailResponse>(p2, s3, x0, x3, x4);
    let x5 = SpecDocumentDetailResponse { id: m.id, source_type: m.source_type, title: m.title, url: m.url, content: m.content, created_at: Seq::empty(), topic_ids: Seq::empty() };
    let s4 = seg_str(5, m.content);
    assert(merge_fields(s4, x4) == Some(x5) && fields_wf(s4)) by {
        if m.content.len() == 0 { assert(m.content =~= Seq::<char>::empty()); lemma_seg_empty::<SpecDocumentDetailResponse>(x4); } else { lemma_seg_len::<SpecDocumentDetailResponse>(5, encode_utf8(m.content), x4); }
    }
    let p4 = p3 + s4;
    lemma_chain::<SpecDocumentDetailResponse>(p3, s4, x0, x4, x5);
    let x6 = SpecDocumentDetailResponse { id: m.id, source_type: m.source_type, title: m.title, url: m.url, content: m.content, created_at: m.created_at, topic_ids: Seq::empty() };
    let s5 = seg_str(6, m.created_at);
    assert(merge_fields(s5, x5) == Some(x6) && fields_wf(s5)) by {
        if m.created_at.len() == 0 { assert(m.created_at =~= Seq::<char>::empty()); lemma_seg_empty::<SpecDocumentDetailResponse>(x5); } else { lemma_seg_len::<SpecDocumentDetailResponse>(6, encode_utf8(m.created_at), x5); }
    }
    let p5 = p4 + s5;
    lemma_chain::<SpecDocumentDetailResponse>(p4, s5, x0, x5, x6);
    let x7 = SpecDocumentDetailResponse { id: m.id, source_type: m.source_type, title: m.title, url: m.url, content: m.content, created_at: m.created_at, topic_ids: m.topic_ids };
    let s6 = seg_packed_i64(7, m.topic_ids);
    assert(merge_fields(s6, x6) == Some(x7) && fields_wf(s6)) by {
        if m.topic_ids.len() == 0 { assert(m.topic_ids =~= Seq::<i64>::empty()); lemma_seg_empty::<SpecDocumentDetailResponse>(x6); } else { lemma_seg_len::<SpecDocumentDetailResponse>(7, packed_bytes(i64s_as_u64s(m.topic_ids)), x6); lemma_i64s_round(m.topic_ids); }
        assert(Seq::<i64>::empty() + m.topic_ids =~= m.topic_ids);
    }
    let p6 = p5 + s6;
    lemma_chain::<SpecDocumentDetailResponse>(p5, s6, x0, x6, x7);
    assert(x7 == m);
}

/// A `DocumentDetailResponse` whose encoding has a length that fits a varint is well-formed.
pub proof fn lemma_wf_document_detail_response(m: SpecDocumentDetailResponse)
    requires
        fits(m.encoded()),
    ensures
        m.wf(),
{
    reveal(SpecDocumentDetailResponse::fields);
    reveal(SpecDocumentDetailResponse::wf);
    let s0 = seg_i64(1, m.id);
    let p0 = s0;
    let s1 = seg_str(2, m.source_type);
    let p1 = p0 + s1;
    let s2 = seg_str(3, m.title);
    let p2 = p1 + s2;
    let s3 = seg_str(4, m.url);
    let p3 = p2 + s3;
    let s4 = seg_str(5, m.content);
    let p4 = p3 + s4;
    let s5 = seg_str(6, m.created_at);
    let p5 = p4 + s5;
    let s6 = seg_packed_i64(7, m.topic_ids);
    let p6 = p5 + s6;
    lemma_fits_parts(p5, s6);
    lemma_fits_parts(p4, s5);
    lemma_fits_parts(p3, s4);
    lemma_fits_parts(p2, s3);
    lemma_fits_parts(p1, s2);
    lemma_fits_parts(p0, s1);
    lemma_fits_seg_str(2, m.source_type);
    lemma_fits_seg_str(3, m.title);
    lemma_fits_seg_str(4, m.url);
    lemma_fits_seg_str(5, m.content);
    lemma_fits_seg_str(6, m.created_at);
    lemma_fits_seg_packed(7, m.topic_ids);
}

/// A link found on a web page.
#[derive(Clone, Debug, PartialEq, Default)]
pub struct ExploredLink {
    pub title: String,
    pub url: String,
}

/// The value of a [`ExploredLink`].
pub struct SpecExploredLink {
    pub title: Seq<char>,
    pub url: Seq<char>,
}

impl View for ExploredLink {
    type V = SpecExploredLink;

    open spec fn view(&self) -> SpecExploredLink {
        SpecExploredLink {
            title: self.title@,
            url: self.url@,
        }
    }
}

impl SpecExploredLink {
    /// Every field at its default.
    pub open spec fn empty() -> SpecExploredLink {
        SpecExploredLink {
            title: Seq::empty(),
            url: Seq::empty(),
        }
    }

    /// The fields written for this value, in field-number order.
    #[verifier::opaque]
    pub open spec fn fields(self) -> Seq<SpecField> {
        seg_str(1, self.title)
            + seg_str(2, self.url)
    }

    pub open spec fn encoded(self) -> Seq<u8> {
        encode_fields(self.fields())
    }

    pub open spec fn encode_all(v: Seq<SpecExploredLink>) -> Seq<Seq<u8>> {
        Seq::new(v.len(), |i: int| v[i].encoded())
    }

    /// Every length-delimited payload fits a varint length.
    #[verifier::opaque]
    pub open spec fn wf(self) -> bool {
        fits(encode_utf8(self.title))
        && fits(encode_utf8(self.url))
    }
}

impl Message for SpecExploredLink {
    open spec fn merge(self, f: SpecField) -> Option<SpecExploredLink> {
        if f.number == 1 {
            match as_string(f.value) { Some(s) => Some(SpecExploredLink { title: s, ..self }), None => None }
        } else if f.number == 2 {
            match as_string(f.value) { Some(s) => Some(SpecExploredLink { url: s, ..self }), None => None }
        } else {
            Some(self)
        }
    }
}

impl WireMessage for ExploredLink {
    type Spec = SpecExploredLink;

    open spec fn spec_of(&self) -> SpecExploredLink {
        self@
    }

    open spec fn spec_default() -> SpecExploredLink {
        SpecExploredLink::empty()
    }

    fn default_value() -> (r: Self) {
        let r = ExploredLink {
            title: String::new(),
            url: String::new(),
        };
        r
    }

    fn merge_raw(&mut self, buf: &[u8], f: &RawField) -> (ok: bool) {
        if f.number == 1 {
            match raw_string(buf, f) { Some(s) => { self.title = s; true }, None => false }
        } else if f.number == 2 {
            match raw_string(buf, f) { Some(s) => { self.url = s; true }, None => false }
        } else {
            true
        }
    }
}

impl ExploredLink {
    /// Appends the protobuf encoding of this message.
    pub fn encode_to(&self, out: &mut Vec<u8>)
        ensures
            final(out)@ == old(out)@ + self@.encoded(),
    {
        let ghost start = out@;
        proof {
            reveal(SpecExploredLink::fields);
        }
        let ghost s0 = seg_str(1, self@.title);
        put_str(out, 1, self.title.as_str());
        let ghost p0 = s0;
        assert(out@ =~= start + encode_fields(p0));
        let ghost s1 = seg_str(2, self@.url);
        put_str(out, 2, self.url.as_str());
        let ghost p1 = p0 + s1;
        proof {
            lemma_encode_fields_append(p0, s1);
        }
        assert(out@ =~= start + encode_fields(p1));
        assert(out@ =~= start + self@.encoded());
    }

    /// The protobuf encoding of this message.
    pub fn encode_to_vec(&self) -> (r: Vec<u8>)
        ensures
            r@ == self@.encoded(),
    {
        let mut out: Vec<u8> = Vec::new();
        self.encode_to(&mut out);
        assert(out@ =~= self@.encoded());
        out
    }

    /// Decodes a message; `None` where the bytes are not a valid encoding.
    pub fn decode(buf: &[u8]) -> (r: Option<ExploredLink>)
        ensures
            match decode_into(buf@, SpecExploredLink::empty()) {
                Some(m) => r matches Some(v) && v@ == m,
                None => r is None,
            },
    {
        decode_message::<ExploredLink>(buf)
    }

    /// Appends one length-delimited field `n` per element of `v`.
    pub fn put_repeated(out: &mut Vec<u8>, n: u32, v: &Vec<ExploredLink>)
        requires
            1 <= n <= MAX_FIELD_NUMBER,
        ensures
            final(out)@ == old(out)@ + encode_fields(seg_rep(n, SpecExploredLink::encode_all(Seq::new(v@.len(), |i: int| v@[i]@)))),
    {
        let ghost all = SpecExploredLink::encode_all(Seq::new(v@.len(), |i: int| v@[i]@));
        let mut part: Vec<u8> = Vec::new();
        let mut i: usize = 0;
        proof {
            lemma_seg_rep_full(n, all);
            lemma_encode_empty();
        }
        while i < v.len()
            invariant
                1 <= n <= MAX_FIELD_NUMBER,
                i <= v@.len(),
                all == SpecExploredLink::encode_all(Seq::new(v@.len(), |i: int| v@[i]@)),
                part@ == encode_fields(seg_rep(n, all.take(i as int))),
            decreases v@.len() - i,
        {
            let b = v[i].encode_to_vec();
            proof {
                assert(all.take(i as int).push(b@) =~= all.take(i + 1));
            }
            put_rep_item(&mut part, n, b.as_slice(), Ghost(all.take(i as int)));
            i = i + 1;
        }
        proof {
            lemma_seg_rep_full(n, all);
        }
        append_all(out, &part);
    }
}

/// Decoding the fields of a well-formed `ExploredLink` gives it back.
pub proof fn lemma_round_explored_link(m: SpecExploredLink)
    requires
        m.wf(),
    ensures
        merge_fields(m.fields(), SpecExploredLink::empty()) == Some(m),
        fields_wf(m.fields()),
{
    reveal(SpecExploredLink::fields);
    reveal(SpecExploredLink::wf);
    let x0 = SpecExploredLink::empty();
    let x1 = SpecExploredLink { title: m.title, url: Seq::empty() };
    let s0 = seg_str(1, m.title);
    assert(merge_fields(s0, x0) == Some(x1) && fields_wf(s0)) by {
        if m.title.len() == 0 { assert(m.title =~= Seq::<char>::empty()); lemma_seg_empty::<SpecExploredLink>(x0); } else { lemma_seg_len::<SpecExploredLink>(1, encode_utf8(m.title), x0); }
    }
    let p0 = s0;
    let x2 = SpecExploredLink { title: m.title, url: m.url };
    let s1 = seg_str(2, m.url);
    assert(merge_fields(s1, x1) == Some(x2) && fields_wf(s1)) by {
        if m.url.len() == 0 { assert(m.url =~= Seq::<char>::empty()); lemma_seg_empty::<SpecExploredLink>(x1); } else { lemma_seg_len::<SpecExploredLink>(2, encode_utf8(m.url), x1); }
    }
    let p1 = p0 + s1;
    lemma_chain::<SpecExploredLink>(p0, s1, x0, x1, x2);
    assert(x2 == m);
}

/// A `ExploredLink` whose encoding has a length that fits a varint is well-formed.
pub proof fn lemma_wf_explored_link(m: SpecExploredLink)
    requires
        fits(m.encoded()),
    ensures
        m.wf(),
{
    reveal(SpecExploredLink::fields);
    reveal(SpecExploredLink::wf);
    let s0 = seg_str(1, m.title);
    let p0 = s0;
    let s1 = seg_str(2, m.url);
    let p1 = p0 + s1;
    lemma_fits_parts(p0, s1);
    lemma_fits_seg_str(1, m.title);
    lemma_fits_seg_str(2, m.url);
}

/// The links found on a web page.
#[derive(Clone, Debug, PartialEq, Default)]
pub struct ExploredLinksResponse {
    pub links: Vec<ExploredLink>,
}

/// The value of a [`ExploredLinksResponse`].
pub struct SpecExploredLinksResponse {
    pub links: Seq<SpecExploredLink>,
}

impl View for ExploredLinksResponse {
    type V = SpecExploredLinksResponse;

    open spec fn view(&self) -> SpecExploredLinksResponse {
        SpecExploredLinksResponse {
            links: Seq::new(self.links@.len(), |i: int| self.links@[i]@),
        }
    }
}

impl SpecExploredLinksResponse {
    /// Every field at its default.
    pub open spec fn empty() -> SpecExploredLinksResponse {
        SpecExploredLinksResponse {
            links: Seq::empty(),
        }
    }

    /// The fields written for this value, in field-number order.
    #[verifier::opaque]
    pub open spec fn fields(self) -> Seq<SpecField> {
        seg_rep(1, SpecExploredLink::encode_all(self.links))
    }

    pub open spec fn encoded(self) -> Seq<u8> {
        encode_fields(self.fields())
    }

    pub open spec fn encode_all(v: Seq<SpecExploredLinksResponse>) -> Seq<Seq<u8>> {
        Seq::new(v.len(), |i: int| v[i].encoded())
    }

    /// Every length-delimited payload fits a varint length.
    #[verifier::opaque]
    pub open spec fn wf(self) -> bool {
        (forall|i: int| 0 <= i < self.links.len() ==> (#[trigger] self.links[i]).wf() && fits(self.links[i].encoded()))
    }
}

impl Message for SpecExploredLinksResponse {
    open spec fn merge(self, f: SpecField) -> Option<SpecExploredLinksResponse> {
        if f.number == 1 {
            match merge_nested(f.value, SpecExploredLink::empty()) { Some(c) => Some(SpecExploredLinksResponse { links: self.links.push(c), ..self }), None => None }
        } else {
            Some(self)
        }
    }
}

impl WireMessage for ExploredLinksResponse {
    type Spec = SpecExploredLinksResponse;

    open spec fn spec_of(&self) -> SpecExploredLinksResponse {
        self@
    }

    open spec fn spec_default() -> SpecExploredLinksResponse {
        SpecExploredLinksResponse::empty()
    }

    fn default_value() -> (r: Self) {
        let r = ExploredLinksResponse {
            links: Vec::new(),
        };
        assert(r@.links =~= Seq::empty());
        r
    }

    fn merge_raw(&mut self, buf: &[u8], f: &RawField) -> (ok: bool) {
        if f.number == 1 {
            match raw_nested(buf, f, ExploredLink::default_value()) { Some(c) => { self.links.push(c); proof { assert(self@.links =~= old(self)@.links.push(self.links@.last()@)); } true }, None => false }
        } else {
            true
        }
    }
}

impl ExploredLinksResponse {
    /// Appends the protobuf encoding of this message.
    pub fn encode_to(&self, out: &mut Vec<u8>)
        ensures
            final(out)@ == old(out)@ + self@.encoded(),
    {
        let ghost start = out@;
        proof {
            reveal(SpecExploredLinksResponse::fields);
        }
        let ghost s0 = seg_rep(1, SpecExploredLink::encode_all(self@.links));
        ExploredLink::put_repeated(out, 1, &self.links);
        let ghost p0 = s0;
        assert(out@ =~= start + encode_fields(p0));
        assert(out@ =~= start + self@.encoded());
    }

    /// The protobuf encoding of this message.
    pub fn encode_to_vec(&self) -> (r: Vec<u8>)
        ensures
            r@ == self@.encoded(),
    {
        let mut out: Vec<u8> = Vec::new();
        self.encode_to(&mut out);
        assert(out@ =~= self@.encoded());
        out
    }

    /// Decodes a message; `None` where the bytes are not a valid encoding.
    pub fn decode(buf: &[u8]) -> (r: Option<ExploredLinksResponse>)
        ensures
            match decode_into(buf@, SpecExploredLinksResponse::empty()) {
                Some(m) => r matches Some(v) && v@ == m,
                None => r is None,
            },
    {
        decode_message::<ExploredLinksResponse>(buf)
    }

    /// Appends one length-delimited field `n` per element of `v`.
    pub fn put_repeated(out: &mut Vec<u8>, n: u32, v: &Vec<ExploredLinksResponse>)
        requires
            1 <= n <= MAX_FIELD_NUMBER,
        ensures
            final(out)@ == old(out)@ + encode_fields(seg_rep(n, SpecExploredLinksResponse::encode_all(Seq::new(v@.len(), |i: int| v@[i]@)))),
    {
        let ghost all = SpecExploredLinksResponse::encode_all(Seq::new(v@.len(), |i: int| v@[i]@));
        let mut part: Vec<u8> = Vec::new();
        let mut i: usize = 0;
        proof {
            lemma_seg_rep_full(n, all);
            lemma_encode_empty();
        }
        while i < v.len()
            invariant
                1 <= n <= MAX_FIELD_NUMBER,
                i <= v@.len(),
                all == SpecExploredLinksResponse::encode_all(Seq::new(v@.len(), |i: int| v@[i]@)),
                part@ == encode_fields(seg_rep(n, all.take(i as int))),
            decreases v@.len() - i,
        {
            let b = v[i].encode_to_vec();
            proof {
                assert(all.take(i as int).push(b@) =~= all.take(i + 1));
            }
            put_rep_item(&mut part, n, b.as_slice(), Ghost(all.take(i as int)));
            i = i + 1;
        }
        proof {
            lemma_seg_rep_full(n, all);
        }
        append_all(out, &part);
    }
}

proof fn lemma_explored_links_response_rep_links(v: Seq<SpecExploredLink>, x: SpecExploredLinksResponse)
    requires
        forall|i: int| 0 <= i < v.len() ==> (#[trigger] v[i]).wf(),
    ensures
        merge_fields(seg_rep(1, SpecExploredLink::encode_all(v)), x) == Some(SpecExploredLinksResponse { links: x.links + v, ..x }),
    decreases v.len(),
{
    if v.len() == 0 {
        lemma_rep_empty(1, SpecExploredLink::encode_all(v));
        lemma_seg_empty::<SpecExploredLinksResponse>(x);
        assert(x.links + v =~= x.links);
    } else {
        let w = v.drop_last();
        lemma_explored_links_response_rep_links(w, x);
        assert(SpecExploredLink::encode_all(v).drop_last() =~= SpecExploredLink::encode_all(w));
        lemma_rep_split(1, SpecExploredLink::encode_all(v));
        lemma_merge_fields_append(seg_rep(1, SpecExploredLink::encode_all(w)), seq![lfield(1, v.last().encoded())], x);
        let y = SpecExploredLinksResponse { links: x.links + w, ..x };
        lemma_merge_one(lfield(1, v.last().encoded()), y);
        lemma_round_explored_link(v.last());
        lemma_decode_encode_fields(v.last().fields(), SpecExploredLink::empty());
        assert((x.links + w).push(v.last()) =~= x.links + v);
    }
}

/// Decoding the fields of a well-formed `ExploredLinksResponse` gives it back.
pub proof fn lemma_round_explored_links_response(m: SpecExploredLinksResponse)
    requires
        m.wf(),
    ensures
        merge_fields(m.fields(), SpecExploredLinksResponse::empty()) == Some(m),
        fields_wf(m.fields()),
{
    reveal(SpecExploredLinksResponse::fields);
    reveal(SpecExploredLinksResponse::wf);
    let x0 = SpecExploredLinksResponse::empty();
    let x1 = SpecExploredLinksResponse { links: m.links };
    let s0 = seg_rep(1, SpecExploredLink::encode_all(m.links));
    assert(merge_fields(s0, x0) == Some(x1) && fields_wf(s0)) by {
        lemma_explored_links_response_rep_links(m.links, x0);
        assert forall|i: int| 0 <= i < SpecExploredLink::encode_all(m.links).len() implies fits(#[trigger] SpecExploredLink::encode_all(m.links)[i]) by { assert(m.links[i].wf() && fits(m.links[i].encoded())); }
        lemma_rep_wf(1, SpecExploredLink::encode_all(m.links));
        assert(x0.links + m.links =~= m.links);
    }
    let p0 = s0;
    assert(x1 == m);
}

/// A `ExploredLinksResponse` whose encoding has a length that fits a varint is well-formed.
pub proof fn lemma_wf_explored_links_response(m: SpecExploredLinksResponse)
    requires
        fits(m.encoded()),
    ensures
        m.wf(),
{
    reveal(SpecExploredLinksResponse::fields);
    reveal(SpecExploredLinksResponse::wf);
    let s0 = seg_rep(1, SpecExploredLink::encode_all(m.links));
    let p0 = s0;
    lemma_fits_seg_rep(1, SpecExploredLink::encode_all(m.links));
    assert forall|i: int| 0 <= i < m.links.len() implies (#[trigger] m.links[i]).wf() && fits(m.links[i].encoded()) by { assert(fits(SpecExploredLink::encode_all(m.links)[i])); lemma_wf_explored_link(m.links[i]); }
}

/// An image of the local pool.
#[derive(Clone, Debug, PartialEq, Default)]
pub struct PoolImageInfo {
    pub id: i64,
    pub name: String,
    pub description: String,
    pub tags: Vec<String>,
    pub created_at: String,
}

/// The value of a [`PoolImageInfo`].
pub struct SpecPoolImageInfo {
    pub id: i64,
    pub name: Seq<char>,
    pub description: Seq<char>,
    pub tags: Seq<Seq<char>>,
    pub created_at: Seq<char>,
}

impl View for PoolImageInfo {
    type V = SpecPoolImageInfo;

    open spec fn view(&self) -> SpecPoolImageInfo {
        SpecPoolImageInfo {
            id: self.id,
            name: self.name@,
            description: self.description@,
            tags: strings_view(self.tags@),
            created_at: self.created_at@,
        }
    }
}

impl SpecPoolImageInfo {
    /// Every field at its default.
    pub open spec fn empty() -> SpecPoolImageInfo {
        SpecPoolImageInfo {
            id: 0i64,
            name: Seq::empty(),
            description: Seq::empty(),
            tags: Seq::empty(),
            created_at: Seq::empty(),
        }
    }

    /// The fields written for this value, in field-number order.
    #[verifier::opaque]
    pub open spec fn fields(self) -> Seq<SpecField> {
        seg_i64(1, self.id)
            + seg_str(2, self.name)
            + seg_str(3, self.description)
            + seg_rep(4, utf8_all(self.tags))
            + seg_str(5, self.created_at)
    }

    pub open spec fn encoded(self) -> Seq<u8> {
        encode_fields(self.fields())
    }

    pub open spec fn encode_all(v: Seq<SpecPoolImageInfo>) -> Seq<Seq<u8>> {
        Seq::new(v.len(), |i: int| v[i].encoded())
    }

    /// Every length-delimited payload fits a varint length.
    #[verifier::opaque]
    pub open spec fn wf(self) -> bool {
        fits(encode_utf8(self.name))
        && fits(encode_utf8(self.description))
        && (forall|i: int| 0 <= i < self.tags.len() ==> fits(#[trigger] utf8_all(self.tags)[i]))
        && fits(encode_utf8(self.created_at))
    }
}

impl Message for SpecPoolImageInfo {
    open spec fn merge(self, f: SpecField) -> Option<SpecPoolImageInfo> {
        if f.number == 1 {
            match as_varint(f.value) { Some(v) => Some(SpecPoolImageInfo { id: v as i64, ..self }), None => None }
        } else if f.number == 2 {
            match as_string(f.value) { Some(s) => Some(SpecPoolImageInfo { name: s, ..self }), None => None }
        } else if f.number == 3 {
            match as_string(f.value) { Some(s) => Some(SpecPoolImageInfo { description: s, ..self }), None => None }
        } else if f.number == 4 {
            match as_string(f.value) { Some(s) => Some(SpecPoolImageInfo { tags: self.tags.push(s), ..self }), None => None }
        } else if f.number == 5 {
            match as_string(f.value) { Some(s) => Some(SpecPoolImageInfo { created_at: s, ..self }), None => None }
        } else {
            Some(self)
        }
    }
}

impl WireMessage for PoolImageInfo {
    type Spec = SpecPoolImageInfo;

    open spec fn spec_of(&self) -> SpecPoolImageInfo {
        self@
    }

    open spec fn spec_default() -> SpecPoolImageInfo {
        SpecPoolImageInfo::empty()
    }

    fn default_value() -> (r: Self) {
        let r = PoolImageInfo {
            id: 0,
            name: String::new(),
            description: String::new(),
            tags: Vec::new(),
            created_at: String::new(),
        };
        assert(r@.tags =~= Seq::empty());
        r
    }

    fn merge_raw(&mut self, buf: &[u8], f: &RawField) -> (ok: bool) {
        if f.number == 1 {
            match raw_varint(f) { Some(v) => { self.id = v as i64; true }, None => false }
        } else if f.number == 2 {
            match raw_string(buf, f) { Some(s) => { self.name = s; true }, None => false }
        } else if f.number == 3 {
            match raw_string(buf, f) { Some(s) => { self.description = s; true }, None => false }
        } else if f.number == 4 {
            match raw_string(buf, f) { Some(s) => { self.tags.push(s); proof { assert(self@.tags =~= old(self)@.tags.push(self.tags@.last()@)); } true }, None => false }
        } else if f.number == 5 {
            match raw_string(buf, f) { Some(s) => { self.created_at = s; true }, None => false }
        } else {
            true
        }
    }
}

impl PoolImageInfo {
    /// Appends the protobuf encoding of this message.
    pub fn encode_to(&self, out: &mut Vec<u8>)
        ensures
            final(out)@ == old(out)@ + self@.encoded(),
    {
        let ghost start = out@;
        proof {
            reveal(SpecPoolImageInfo::fields);
        }
        let ghost s0 = seg_i64(1, self@.id);
        put_i64(out, 1, self.id);
        let ghost p0 = s0;
        assert(out@ =~= start + encode_fields(p0));
        let ghost s1 = seg_str(2, self@.name);
        put_str(out, 2, self.name.as_str());
        let ghost p1 = p0 + s1;
        proof {
            lemma_encode_fields_append(p0, s1);
        }
        assert(out@ =~= start + encode_fields(p1));
        let ghost s2 = seg_str(3, self@.description);
        put_str(out, 3, self.description.as_str());
        let ghost p2 = p1 + s2;
        proof {
            lemma_encode_fields_append(p1, s2);
        }
        assert(out@ =~= start + encode_fields(p2));
        let ghost s3 = seg_rep(4, utf8_all(self@.tags));
        put_rep_str(out, 4, &self.tags);
        let ghost p3 = p2 + s3;
        proof {
            lemma_encode_fields_append(p2, s3);
        }
        assert(out@ =~= start + encode_fields(p3));
        let ghost s4 = seg_str(5, self@.created_at);
        put_str(out, 5, self.created_at.as_str());
        let ghost p4 = p3 + s4;
        proof {
            lemma_encode_fields_append(p3, s4);
        }
        assert(out@ =~= start + encode_fields(p4));
        assert(out@ =~= start + self@.encoded());
    }

    /// The protobuf encoding of this message.
    pub fn encode_to_vec(&self) -> (r: Vec<u8>)
        ensures
            r@ == self@.encoded(),
    {
        let mut out: Vec<u8> = Vec::new();
        self.encode_to(&mut out);
        assert(out@ =~= self@.encoded());
        out
    }

    /// Decodes a message; `None` where the bytes are not a valid encoding.
    pub fn decode(buf: &[u8]) -> (r: Option<PoolImageInfo>)
        ensures
            match decode_into(buf@, SpecPoolImageInfo::empty()) {
                Some(m) => r matches Some(v) && v@ == m,
                None => r is None,
            },
    {
        decode_message::<PoolImageInfo>(buf)
    }

    /// Appends one length-delimited field `n` per element of `v`.
    pub fn put_repeated(out: &mut Vec<u8>, n: u32, v: &Vec<PoolImageInfo>)
        requires
            1 <= n <= MAX_FIELD_NUMBER,
        ensures
            final(out)@ == old(out)@ + encode_fields(seg_rep(n, SpecPoolImageInfo::encode_all(Seq::new(v@.len(), |i: int| v@[i]@)))),
    {
        let ghost all = SpecPoolImageInfo::encode_all(Seq::new(v@.len(), |i: int| v@[i]@));
        let mut part: Vec<u8> = Vec::new();
        let mut i: usize = 0;
        proof {
            lemma_seg_rep_full(n, all);
            lemma_encode_empty();
        }
        while i < v.len()
            invariant
                1 <= n <= MAX_FIELD_NUMBER,
                i <= v@.len(),
                all == SpecPoolImageInfo::encode_all(Seq::new(v@.len(), |i: int| v@[i]@)),
                part@ == encode_fields(seg_rep(n, all.take(i as int))),
            decreases v@.len() - i,
        {
            let b = v[i].encode_to_vec();
            proof {
                assert(all.take(i as int).push(b@) =~= all.take(i + 1));
            }
            put_rep_item(&mut part, n, b.as_slice(), Ghost(all.take(i as int)));
            i = i + 1;
        }
        proof {
            lemma_seg_rep_full(n, all);
        }
        append_all(out, &part);
    }
}

proof fn lemma_pool_image_info_rep_tags(v: Seq<Seq<char>>, x: SpecPoolImageInfo)
    ensures
        merge_fields(seg_rep(4, utf8_all(v)), x) == Some(SpecPoolImageInfo { tags: x.tags + v, ..x }),
    decreases v.len(),
{
    if v.len() == 0 {
        lemma_rep_empty(4, utf8_all(v));
        lemma_seg_empty::<SpecPoolImageInfo>(x);
        assert(x.tags + v =~= x.tags);
    } else {
        let w = v.drop_last();
        lemma_pool_image_info_rep_tags(w, x);
        assert(utf8_all(v).drop_last() =~= utf8_all(w));
        lemma_rep_split(4, utf8_all(v));
        lemma_merge_fields_append(seg_rep(4, utf8_all(w)), seq![lfield(4, encode_utf8(v.last()))], x);
        let y = SpecPoolImageInfo { tags: x.tags + w, ..x };
        lemma_merge_one(lfield(4, encode_utf8(v.last())), y);
        
        assert((x.tags + w).push(v.last()) =~= x.tags + v);
    }
}

/// Decoding the fields of a well-formed `PoolImageInfo` gives it back.
pub proof fn lemma_round_pool_image_info(m: SpecPoolImageInfo)
    requires
        m.wf(),
    ensures
        merge_fields(m.fields(), SpecPoolImageInfo::empty()) == Some(m),
        fields_wf(m.fields()),
{
    reveal(SpecPoolImageInfo::fields);
    reveal(SpecPoolImageInfo::wf);
    let x0 = SpecPoolImageInfo::empty();
    let x1 = SpecPoolImageInfo { id: m.id, name: Seq::empty(), description: Seq::empty(), tags: Seq::empty(), created_at: Seq::empty() };
    let s0 = seg_i64(1, m.id);
    assert(merge_fields(s0, x0) == Some(x1) && fields_wf(s0)) by {
        lemma_zero_i64(m.id);
        lemma_seg_u64::<SpecPoolImageInfo>(1, m.id as u64, x0);
    }
    let p0 = s0;
    let x2 = SpecPoolImageInfo { id: m.id, name: m.name, description: Seq::empty(), tags: Seq::empty(), created_at: Seq::empty() };
    let s1 = seg_str(2, m.name);
    assert(merge_fields(s1, x1) == Some(x2) && fields_wf(s1)) by {
        if m.name.len() == 0 { assert(m.name =~= Seq::<char>::empty()); lemma_seg_empty::<SpecPoolImageInfo>(x1); } else { lemma_seg_len::<SpecPoolImageInfo>(2, encode_utf8(m.name), x1); }
    }
    let p1 = p0 + s1;
    lemma_chain::<SpecPoolImageInfo>(p0, s1, x0, x1, x2);
    let x3 = SpecPoolImageInfo { id: m.id, name: m.name, description: m.description, tags: Seq::empty(), created_at: Seq::empty() };
    let s2 = seg_str(3, m.description);
    assert(merge_fields(s2, x2) == Some(x3) && fields_wf(s2)) by {
        if m.description.len() == 0 { assert(m.description =~= Seq::<char>::empty()); lemma_seg_empty::<SpecPoolImageInfo>(x2); } else { lemma_seg_len::<SpecPoolImageInfo>(3, encode_utf8(m.description), x2); }
    }
    let p2 = p1 + s2;
    lemma_chain::<SpecPoolImageInfo>(p1, s2, x0, x2, x3);
    let x4 = SpecPoolImageInfo { id: m.id, name: m.name, description: m.description, tags: m.tags, created_at: Seq::empty() };
    let s3 = seg_rep(4, utf8_all(m.tags));
    assert(merge_fields(s3, x3) == Some(x4) && fields_wf(s3)) by {
        lemma_pool_image_info_rep_tags(m.tags, x3);
        lemma_rep_wf(4, utf8_all(m.tags));
        assert(x3.tags + m.tags =~= m.tags);
    }
    let p3 = p2 + s3;
    lemma_chain::<SpecPoolImageInfo>(p2, s3, x0, x3, x4);
    let x5 = SpecPoolImageInfo { id: m.id, name: m.name, description: m.description, tags: m.tags, created_at: m.created_at };
    let s4 = seg_str(5, m.created_at);
    assert(merge_fields(s4, x4) == Some(x5) && fields_wf(s4)) by {
        if m.created_at.len() == 0 { assert(m.created_at =~= Seq::<char>::empty()); lemma_seg_empty::<SpecPoolImageInfo>(x4); } else { lemma_seg_len::<SpecPoolImageInfo>(5, encode_utf8(m.created_at), x4); }
    }
    let p4 = p3 + s4;
    lemma_chain::<SpecPoolImageInfo>(p3, s4, x0, x4, x5);
    assert(x5 == m);
}

/// A `PoolImageInfo` whose encoding has a length that fits a varint is well-formed.
pub proof fn lemma_wf_pool_image_info(m: SpecPoolImageInfo)
    requires
        fits(m.encoded()),
    ensures
        m.wf(),
{
    reveal(SpecPoolImageInfo::fields);
    reveal(SpecPoolImageInfo::wf);
    let s0 = seg_i64(1, m.id);
    let p0 = s0;
    let s1 = seg_str(2, m.name);
    let p1 = p0 + s1;
    let s2 = seg_str(3, m.description);
    let p2 = p1 + s2;
    let s3 = seg_rep(4, utf8_all(m.tags));
    let p3 = p2 + s3;
    let s4 = seg_str(5, m.created_at);
    let p4 = p3 + s4;
    lemma_fits_parts(p3, s4);
    lemma_fits_parts(p2, s3);
    lemma_fits_parts(p1, s2);
    lemma_fits_parts(p0, s1);
    lemma_fits_seg_str(2, m.name);
    lemma_fits_seg_str(3, m.description);
    lemma_fits_seg_rep(4, utf8_all(m.tags));
    lemma_fits_seg_str(5, m.created_at);
}

/// The local image pool.
#[derive(Clone, Debug, PartialEq, Default)]
pub struct PoolImageListResponse {
    pub images: Vec<PoolImageInfo>,
}

/// The value of a [`PoolImageListResponse`].
pub struct SpecPoolImageListResponse {
    pub images: Seq<SpecPoolImageInfo>,
}

impl View for PoolImageListResponse {
    type V = SpecPoolImageListResponse;

    open spec fn view(&self) -> SpecPoolImageListResponse {
        SpecPoolImageListResponse {
            images: Seq::new(self.images@.len(), |i: int| self.images@[i]@),
        }
    }
}

impl SpecPoolImageListResponse {
    /// Every field at its default.
    pub open spec fn empty() -> SpecPoolImageListResponse {
        SpecPoolImageListResponse {
            images: Seq::empty(),
        }
    }

    /// The fields written for this value, in field-number order.
    #[verifier::opaque]
    pub open spec fn fields(self) -> Seq<SpecField> {
        seg_rep(1, SpecPoolImageInfo::encode_all(self.images))
    }

    pub open spec fn encoded(self) -> Seq<u8> {
        encode_fields(self.fields())
    }

    pub open spec fn encode_all(v: Seq<SpecPoolImageListResponse>) -> Seq<Seq<u8>> {
        Seq::new(v.len(), |i: int| v[i].encoded())
    }

    /// Every length-delimited payload fits a varint length.
    #[verifier::opaque]
    pub open spec fn wf(self) -> bool {
        (forall|i: int| 0 <= i < self.images.len() ==> (#[trigger] self.images[i]).wf() && fits(self.images[i].encoded()))
    }
}

impl Message for SpecPoolImageListResponse {
    open spec fn merge(self, f: SpecField) -> Option<SpecPoolImageListResponse> {
        if f.number == 1 {
            match merge_nested(f.value, SpecPoolImageInfo::empty()) { Some(c) => Some(SpecPoolImageListResponse { images: self.images.push(c), ..self }), None => None }
        } else {
            Some(self)
        }
    }
}

impl WireMessage for PoolImageListResponse {
    type Spec = SpecPoolImageListResponse;

    open spec fn spec_of(&self) -> SpecPoolImageListResponse {
        self@
    }

    open spec fn spec_default() -> SpecPoolImageListResponse {
        SpecPoolImageListResponse::empty()
    }

    fn default_value() -> (r: Self) {
        let r = PoolImageListResponse {
            images: Vec::new(),
        };
        assert(r@.images =~= Seq::empty());
        r
    }

    fn merge_raw(&mut self, buf: &[u8], f: &RawField) -> (ok: bool) {
        if f.number == 1 {
            match raw_nested(buf, f, PoolImageInfo::default_value()) { Some(c) => { self.images.push(c); proof { assert(self@.images =~= old(self)@.images.push(self.images@.last()@)); } true }, None => false }
        } else {
            true
        }
    }
}

impl PoolImageListResponse {
    /// Appends the protobuf encoding of this message.
    pub fn encode_to(&self, out: &mut Vec<u8>)
        ensures
            final(out)@ == old(out)@ + self@.encoded(),
    {
        let ghost start = out@;
        proof {
            reveal(SpecPoolImageListResponse::fields);
        }
        let ghost s0 = seg_rep(1, SpecPoolImageInfo::encode_all(self@.images));
        PoolImageInfo::put_repeated(out, 1, &self.images);
        let ghost p0 = s0;
        assert(out@ =~= start + encode_fields(p0));
        assert(out@ =~= start + self@.encoded());
    }

    /// The protobuf encoding of this message.
    pub fn encode_to_vec(&self) -> (r: Vec<u8>)
        ensures
            r@ == self@.encoded(),
    {
        let mut out: Vec<u8> = Vec::new();
        self.encode_to(&mut out);
        assert(out@ =~= self@.encoded());
        out
    }

    /// Decodes a message; `None` where the bytes are not a valid encoding.
    pub fn decode(buf: &[u8]) -> (r: Option<PoolImageListResponse>)
        ensures
            match decode_into(buf@, SpecPoolImageListResponse::empty()) {
                Some(m) => r matches Some(v) && v@ == m,
                None => r is None,
            },
    {
        decode_message::<PoolImageListResponse>(buf)
    }

    /// Appends one length-delimited field `n` per element of `v`.
    pub fn put_repeated(out: &mut Vec<u8>, n: u32, v: &Vec<PoolImageListResponse>)
        requires
            1 <= n <= MAX_FIELD_NUMBER,
        ensures
            final(out)@ == old(out)@ + encode_fields(seg_rep(n, SpecPoolImageListResponse::encode_all(Seq::new(v@.len(), |i: int| v@[i]@)))),
    {
        let ghost all = SpecPoolImageListResponse::encode_all(Seq::new(v@.len(), |i: int| v@[i]@));
        let mut part: Vec<u8> = Vec::new();
        let mut i: usize = 0;
        proof {
            lemma_seg_rep_full(n, all);
            lemma_encode_empty();
        }
        while i < v.len()
            invariant
                1 <= n <= MAX_FIELD_NUMBER,
                i <= v@.len(),
                all == SpecPoolImageListResponse::encode_all(Seq::new(v@.len(), |i: int| v@[i]@)),
                part@ == encode_fields(seg_rep(n, all.take(i as int))),
            decreases v@.len() - i,
        {
            let b = v[i].encode_to_vec();
            proof {
                assert(all.take(i as int).push(b@) =~= all.take(i + 1));
            }
            put_rep_item(&mut part, n, b.as_slice(), Ghost(all.take(i as int)));
            i = i + 1;
        }
        proof {
            lemma_seg_rep_full(n, all);
        }
        append_all(out, &part);
    }
}

proof fn lemma_pool_image_list_response_rep_images(v: Seq<SpecPoolImageInfo>, x: SpecPoolImageListResponse)
    requires
        forall|i: int| 0 <= i < v.len() ==> (#[trigger] v[i]).wf(),
    ensures
        merge_fields(seg_rep(1, SpecPoolImageInfo::encode_all(v)), x) == Some(SpecPoolImageListResponse { images: x.images + v, ..x }),
    decreases v.len(),
{
    if v.len() == 0 {
        lemma_rep_empty(1, SpecPoolImageInfo::encode_all(v));
        lemma_seg_empty::<SpecPoolImageListResponse>(x);
        assert(x.images + v =~= x.images);
    } else {
        let w = v.drop_last();
        lemma_pool_image_list_response_rep_images(w, x);
        assert(SpecPoolImageInfo::encode_all(v).drop_last() =~= SpecPoolImageInfo::encode_all(w));
        lemma_rep_split(1, SpecPoolImageInfo::encode_all(v));
        lemma_merge_fields_append(seg_rep(1, SpecPoolImageInfo::encode_all(w)), seq![lfield(1, v.last().encoded())], x);
        let y = SpecPoolImageListResponse { images: x.images + w, ..x };
        lemma_merge_one(lfield(1, v.last().encoded()), y);
        lemma_round_pool_image_info(v.last());
        lemma_decode_encode_fields(v.last().fields(), SpecPoolImageInfo::empty());
        assert((x.images + w).push(v.last()) =~= x.images + v);
    }
}

/// Decoding the fields of a well-formed `PoolImageListResponse` gives it back.
pub proof fn lemma_round_pool_image_list_response(m: SpecPoolImageListResponse)
    requires
        m.wf(),
    ensures
        merge_fields(m.fields(), SpecPoolImageListResponse::empty()) == Some(m),
        fields_wf(m.fields()),
{
    reveal(SpecPoolImageListResponse::fields);
    reveal(SpecPoolImageListResponse::wf);
    let x0 = SpecPoolImageListResponse::empty();
    let x1 = SpecPoolImageListResponse { images: m.images };
    let s0 = seg_rep(1, SpecPoolImageInfo::encode_all(m.images));
    assert(merge_fields(s0, x0) == Some(x1) && fields_wf(s0)) by {
        lemma_pool_image_list_response_rep_images(m.images, x0);
        assert forall|i: int| 0 <= i < SpecPoolImageInfo::encode_all(m.images).len() implies fits(#[trigger] SpecPoolImageInfo::encode_all(m.images)[i]) by { assert(m.images[i].wf() && fits(m.images[i].encoded())); }
        lemma_rep_wf(1, SpecPoolImageInfo::encode_all(m.images));
        assert(x0.images + m.images =~= m.images);
    }
    let p0 = s0;
    assert(x1 == m);
}

/// A `PoolImageListResponse` whose encoding has a length that fits a varint is well-formed.
pub proof fn lemma_wf_pool_image_list_response(m: SpecPoolImageListResponse)
    requires
        fits(m.encoded()),
    ensures
        m.wf(),
{
    reveal(SpecPoolImageListResponse::fields);
    reveal(SpecPoolImageListResponse::wf);
    let s0 = seg_rep(1, SpecPoolImageInfo::encode_all(m.images));
    let p0 = s0;
    lemma_fits_seg_rep(1, SpecPoolImageInfo::encode_all(m.images));
    assert forall|i: int| 0 <= i < m.images.len() implies (#[trigger] m.images[i]).wf() && fits(m.images[i].encoded()) by { assert(fits(SpecPoolImageInfo::encode_all(m.images)[i])); lemma_wf_pool_image_info(m.images[i]); }
}

/// The id of a new pool image.
#[derive(Clone, Debug, PartialEq, Default)]
pub struct PoolImageCreatedResponse {
    pub id: i64,
}

/// The value of a [`PoolImageCreatedResponse`].
pub struct SpecPoolImageCreatedResponse {
    pub id: i64,
}

impl View for PoolImageCreatedResponse {
    type V = SpecPoolImageCreatedResponse;

    open spec fn view(&self) -> SpecPoolImageCreatedResponse {
        SpecPoolImageCreatedResponse {
            id: self.id,
        }
    }
}

impl SpecPoolImageCreatedResponse {
    /// Every field at its default.
    pub open spec fn empty() -> SpecPoolImageCreatedResponse {
        SpecPoolImageCreatedResponse {
            id: 0i64,
        }
    }

    /// The fields written for this value, in field-number order.
    #[verifier::opaque]
    pub open spec fn fields(self) -> Seq<SpecField> {
        seg_i64(1, self.id)
    }

    pub open spec fn encoded(self) -> Seq<u8> {
        encode_fields(self.fields())
    }

    pub open spec fn encode_all(v: Seq<SpecPoolImageCreatedResponse>) -> Seq<Seq<u8>> {
        Seq::new(v.len(), |i: int| v[i].encoded())
    }

    /// Every length-delimited payload fits a varint length.
    #[verifier::opaque]
    pub open spec fn wf(self) -> bool {
        true
    }
}

impl Message for SpecPoolImageCreatedResponse {
    open spec fn merge(self, f: SpecField) -> Option<SpecPoolImageCreatedResponse> {
        if f.number == 1 {
            match as_varint(f.value) { Some(v) => Some(SpecPoolImageCreatedResponse { id: v as i64, ..self }), None => None }
        } else {
            Some(self)
        }
    }
}

impl WireMessage for PoolImageCreatedResponse {
    type Spec = SpecPoolImageCreatedResponse;

    open spec fn spec_of(&self) -> SpecPoolImageCreatedResponse {
        self@
    }

    open spec fn spec_default() -> SpecPoolImageCreatedResponse {
        SpecPoolImageCreatedResponse::empty()
    }

    fn default_value() -> (r: Self) {
        let r = PoolImageCreatedResponse {
            id: 0,
        };
        r
    }

    fn merge_raw(&mut self, buf: &[u8], f: &RawField) -> (ok: bool) {
        if f.number == 1 {
            match raw_varint(f) { Some(v) => { self.id = v as i64; true }, None => false }
        } else {
            true
        }
    }
}

impl PoolImageCreatedResponse {
    /// Appends the protobuf encoding of this message.
    pub fn encode_to(&self, out: &mut Vec<u8>)
        ensures
            final(out)@ == old(out)@ + self@.encoded(),
    {
        let ghost start = out@;
        proof {
            reveal(SpecPoolImageCreatedResponse::fields);
        }
        let ghost s0 = seg_i64(1, self@.id);
        put_i64(out, 1, self.id);
        let ghost p0 = s0;
        assert(out@ =~= start + encode_fields(p0));
        assert(out@ =~= start + self@.encoded());
    }

    /// The protobuf encoding of this message.
    pub fn encode_to_vec(&self) -> (r: Vec<u8>)
        ensures
            r@ == self@.encoded(),
    {
        let mut out: Vec<u8> = Vec::new();
        self.encode_to(&mut out);
        assert(out@ =~= self@.encoded());
        out
    }

    /// Decodes a message; `None` where the bytes are not a valid encoding.
    pub fn decode(buf: &[u8]) -> (r: Option<PoolImageCreatedResponse>)
        ensures
            match decode_into(buf@, SpecPoolImageCreatedResponse::empty()) {
                Some(m) => r matches Some(v) && v@ == m,
                None => r is None,
            },
    {
        decode_message::<PoolImageCreatedResponse>(buf)
    }

    /// Appends one length-delimited field `n` per element of `v`.
    pub fn put_repeated(out: &mut Vec<u8>, n: u32, v: &Vec<PoolImageCreatedResponse>)
        requires
            1 <= n <= MAX_FIELD_NUMBER,
        ensures
            final(out)@ == old(out)@ + encode_fields(seg_rep(n, SpecPoolImageCreatedResponse::encode_all(Seq::new(v@.len(), |i: int| v@[i]@)))),
    {
        let ghost all = SpecPoolImageCreatedResponse::encode_all(Seq::new(v@.len(), |i: int| v@[i]@));
        let mut part: Vec<u8> = Vec::new();
        let mut i: usize = 0;
        proof {
            lemma_seg_rep_full(n, all);
            lemma_encode_empty();
        }
        while i < v.len()
            invariant
                1 <= n <= MAX_FIELD_NUMBER,
                i <= v@.len(),
                all == SpecPoolImageCreatedResponse::encode_all(Seq::new(v@.len(), |i: int| v@[i]@)),
                part@ == encode_fields(seg_rep(n, all.take(i as int))),
            decreases v@.len() - i,
        {
            let b = v[i].encode_to_vec();
            proof {
                assert(all.take(i as int).push(b@) =~= all.take(i + 1));
            }
            put_rep_item(&mut part, n, b.as_slice(), Ghost(all.take(i as int)));
            i = i + 1;
        }
        proof {
            lemma_seg_rep_full(n, all);
        }
        append_all(out, &part);
    }
}

/// Decoding the fields of a well-formed `PoolImageCreatedResponse` gives it back.
pub proof fn lemma_round_pool_image_created_response(m: SpecPoolImageCreatedResponse)
    requires
        m.wf(),
    ensures
        merge_fields(m.fields(), SpecPoolImageCreatedResponse::empty()) == Some(m),
        fields_wf(m.fields()),
{
    reveal(SpecPoolImageCreatedResponse::fields);
    reveal(SpecPoolImageCreatedResponse::wf);
    let x0 = SpecPoolImageCreatedResponse::empty();
    let x1 = SpecPoolImageCreatedResponse { id: m.id };
    let s0 = seg_i64(1, m.id);
    assert(merge_fields(s0, x0) == Some(x1) && fields_wf(s0)) by {
        lemma_zero_i64(m.id);
        lemma_seg_u64::<SpecPoolImageCreatedResponse>(1, m.id as u64, x0);
    }
    let p0 = s0;
    assert(x1 == m);
}

/// A `PoolImageCreatedResponse` whose encoding has a length that fits a varint is well-formed.
pub proof fn lemma_wf_pool_image_created_response(m: SpecPoolImageCreatedResponse)
    requires
        fits(m.encoded()),
    ensures
        m.wf(),
{
    reveal(SpecPoolImageCreatedResponse::fields);
    reveal(SpecPoolImageCreatedResponse::wf);
}

/// The body of a successful call.
#[derive(Clone, Debug, PartialEq, Default)]
pub struct ApiResponse {
    pub result: Option<ResponseResult>,
}

/// The value of a [`ApiResponse`].
pub struct SpecApiResponse {
    pub result: Option<SpecResponseResult>,
}

impl View for ApiResponse {
    type V = SpecApiResponse;

    open spec fn view(&self) -> SpecApiResponse {
        SpecApiResponse {
            result: match &self.result { Some(c) => Some(c@), None => None },
        }
    }
}

impl SpecApiResponse {
    /// Every field at its default.
    pub open spec fn empty() -> SpecApiResponse {
        SpecApiResponse {
            result: None,
        }
    }

    /// The fields written for this value, in field-number order.
    #[verifier::opaque]
    pub open spec fn fields(self) -> Seq<SpecField> {
        SpecResponseResult::fields_of(self.result)
    }

    pub open spec fn encoded(self) -> Seq<u8> {
        encode_fields(self.fields())
    }

    pub open spec fn encode_all(v: Seq<SpecApiResponse>) -> Seq<Seq<u8>> {
        Seq::new(v.len(), |i: int| v[i].encoded())
    }

    /// Every length-delimited payload fits a varint length.
    #[verifier::opaque]
    pub open spec fn wf(self) -> bool {
        SpecResponseResult::wf_of(self.result)
    }
}

impl Message for SpecApiResponse {
    open spec fn merge(self, f: SpecField) -> Option<SpecApiResponse> {
        if f.number == 1 {
            match merge_nested(f.value, match self.result { Some(SpecResponseResult::Done(c)) => c, _ => SpecEmpty::empty() }) { Some(c) => Some(SpecApiResponse { result: Some(SpecResponseResult::Done(c)), ..self }), None => None }
        } else if f.number == 2 {
            match merge_nested(f.value, match self.result { Some(SpecResponseResult::FlowCardPage(c)) => c, _ => SpecFlowCardPageResponse::empty() }) { Some(c) => Some(SpecApiResponse { result: Some(SpecResponseResult::FlowCardPage(c)), ..self }), None => None }
        } else if f.number == 3 {
            match merge_nested(f.value, match self.result { Some(SpecResponseResult::TipcardDetail(c)) => c, _ => SpecTipcardDetailResponse::empty() }) { Some(c) => Some(SpecApiResponse { result: Some(SpecResponseResult::TipcardDetail(c)), ..self }), None => None }
        } else if f.number == 4 {
            match merge_nested(f.value, match self.result { Some(SpecResponseResult::Tips(c)) => c, _ => SpecTipsResponse::empty() }) { Some(c) => Some(SpecApiResponse { result: Some(SpecResponseResult::Tips(c)), ..self }), None => None }
        } else if f.number == 5 {
            match merge_nested(f.value, match self.result { Some(SpecResponseResult::ReviewAndAdvance(c)) => c, _ => SpecReviewAndAdvanceResponse::empty() }) { Some(c) => Some(SpecApiResponse { result: Some(SpecResponseResult::ReviewAndAdvance(c)), ..self }), None => None }
        } else if f.number == 6 {
            match merge_nested(f.value, match self.result { Some(SpecResponseResult::ContinueDailyReview(c)) => c, _ => SpecContinueDailyReviewResponse::empty() }) { Some(c) => Some(SpecApiResponse { result: Some(SpecResponseResult::ContinueDailyReview(c)), ..self }), None => None }
        } else if f.number == 7 {
            match merge_nested(f.value, match self.result { Some(SpecResponseResult::Tipcards(c)) => c, _ => SpecTipcardListResponse::empty() }) { Some(c) => Some(SpecApiResponse { result: Some(SpecResponseResult::Tipcards(c)), ..self }), None => None }
        } else if f.number == 8 {
            match merge_nested(f.value, match self.result { Some(SpecResponseResult::ForceDailyRefresh(c)) => c, _ => SpecForceDailyRefreshResponse::empty() }) { Some(c) => Some(SpecApiResponse { result: Some(SpecResponseResult::ForceDailyRefresh(c)), ..self }), None => None }
        } else if f.number == 9 {
            match merge_nested(f.value, match self.result { Some(SpecResponseResult::Settings(c)) => c, _ => SpecSettingsResponse::empty() }) { Some(c) => Some(SpecApiResponse { result: Some(SpecResponseResult::Settings(c)), ..self }), None => None }
        } else if f.number == 10 {
            match merge_nested(f.value, match self.result { Some(SpecResponseResult::ApiInfo(c)) => c, _ => SpecApiInfoResponse::empty() }) { Some(c) => Some(SpecApiResponse { result: Some(SpecResponseResult::ApiInfo(c)), ..self }), None => None }
        } else if f.number == 11 {
            match merge_nested(f.value, match self.result { Some(SpecResponseResult::VisionModelTest(c)) => c, _ => SpecVisionModelTestResponse::empty() }) { Some(c) => Some(SpecApiResponse { result: Some(SpecResponseResult::VisionModelTest(c)), ..self }), None => None }
        } else if f.number == 12 {
            match merge_nested(f.value, match self.result { Some(SpecResponseResult::ApiKeys(c)) => c, _ => SpecApiKeyListResponse::empty() }) { Some(c) => Some(SpecApiResponse { result: Some(SpecResponseResult::ApiKeys(c)), ..self }), None => None }
        } else if f.number == 13 {
            match merge_nested(f.value, match self.result { Some(SpecResponseResult::ApiKeyCreated(c)) => c, _ => SpecApiKeyCreatedResponse::empty() }) { Some(c) => Some(SpecApiResponse { result: Some(SpecResponseResult::ApiKeyCreated(c)), ..self }), None => None }
        } else if f.number == 14 {
            match merge_nested(f.value, match self.result { Some(SpecResponseResult::Summary(c)) => c, _ => SpecSummaryResponse::empty() }) { Some(c) => Some(SpecApiResponse { result: Some(SpecResponseResult::Summary(c)), ..self }), None => None }
        } else if f.number == 15 {
            match merge_nested(f.value, match self.result { Some(SpecResponseResult::AppTopics(c)) => c, _ => SpecAppTopicListResponse::empty() }) { Some(c) => Some(SpecApiResponse { result: Some(SpecResponseResult::AppTopics(c)), ..self }), None => None }
        } else if f.number == 16 {
            match merge_nested(f.value, match self.result { Some(SpecResponseResult::Documents(c)) => c, _ => SpecDocumentListResponse::empty() }) { Some(c) => Some(SpecApiResponse { result: Some(SpecResponseResult::Documents(c)), ..self }), None => None }
        } else if f.number == 17 {
            match merge_nested(f.value, match self.result { Some(SpecResponseResult::DocumentDetail(c)) => c, _ => SpecDocumentDetailResponse::empty() }) { Some(c) => Some(SpecApiResponse { result: Some(SpecResponseResult::DocumentDetail(c)), ..self }), None => None }
        } else if f.number == 18 {
            match merge_nested(f.value, match self.result { Some(SpecResponseResult::DocumentCreated(c)) => c, _ => SpecDocumentDetailResponse::empty() }) { Some(c) => Some(SpecApiResponse { result: Some(SpecResponseResult::DocumentCreated(c)), ..self }), None => None }
        } else if f.number == 19 {
            match merge_nested(f.value, match self.result { Some(SpecResponseResult::ExploredLinks(c)) => c, _ => SpecExploredLinksResponse::empty() }) { Some(c) => Some(SpecApiResponse { result: Some(SpecResponseResult::ExploredLinks(c)), ..self }), None => None }
        } else if f.number == 20 {
            match merge_nested(f.value, match self.result { Some(SpecResponseResult::PoolImages(c)) => c, _ => SpecPoolImageListResponse::empty() }) { Some(c) => Some(SpecApiResponse { result: Some(SpecResponseResult::PoolImages(c)), ..self }), None => None }
        } else if f.number == 21 {
            match merge_nested(f.value, match self.result { Some(SpecResponseResult::PoolImageCreated(c)) => c, _ => SpecPoolImageCreatedResponse::empty() }) { Some(c) => Some(SpecApiResponse { result: Some(SpecResponseResult::PoolImageCreated(c)), ..self }), None => None }
        } else {
            Some(self)
        }
    }
}

impl WireMessage for ApiResponse {
    type Spec = SpecApiResponse;

    open spec fn spec_of(&self) -> SpecApiResponse {
        self@
    }

    open spec fn spec_default() -> SpecApiResponse {
        SpecApiResponse::empty()
    }

    fn default_value() -> (r: Self) {
        let r = ApiResponse {
            result: None,
        };
        r
    }

    fn merge_raw(&mut self, buf: &[u8], f: &RawField) -> (ok: bool) {
        if f.number == 1 {
            { let cur = match self.result.take() { Some(ResponseResult::Done(c)) => c, _ => Empty::default_value() }; match raw_nested(buf, f, cur) { Some(c) => { self.result = Some(ResponseResult::Done(c)); true }, None => false } }
        } else if f.number == 2 {
            { let cur = match self.result.take() { Some(ResponseResult::FlowCardPage(c)) => c, _ => FlowCardPageResponse::default_value() }; match raw_nested(buf, f, cur) { Some(c) => { self.result = Some(ResponseResult::FlowCardPage(c)); true }, None => false } }
        } else if f.number == 3 {
            { let cur = match self.result.take() { Some(ResponseResult::TipcardDetail(c)) => c, _ => TipcardDetailResponse::default_value() }; match raw_nested(buf, f, cur) { Some(c) => { self.result = Some(ResponseResult::TipcardDetail(c)); true }, None => false } }
        } else if f.number == 4 {
            { let cur = match self.result.take() { Some(ResponseResult::Tips(c)) => c, _ => TipsResponse::default_value() }; match raw_nested(buf, f, cur) { Some(c) => { self.result = Some(ResponseResult::Tips(c)); true }, None => false } }
        } else if f.number == 5 {
            { let cur = match self.result.take() { Some(ResponseResult::ReviewAndAdvance(c)) => c, _ => ReviewAndAdvanceResponse::default_value() }; match raw_nested(buf, f, cur) { Some(c) => { self.result = Some(ResponseResult::ReviewAndAdvance(c)); true }, None => false } }
        } else if f.number == 6 {
            { let cur = match self.result.take() { Some(ResponseResult::ContinueDailyReview(c)) => c, _ => ContinueDailyReviewResponse::default_value() }; match raw_nested(buf, f, cur) { Some(c) => { self.result = Some(ResponseResult::ContinueDailyReview(c)); true }, None => false } }
        } else if f.number == 7 {
            { let cur = match self.result.take() { Some(ResponseResult::Tipcards(c)) => c, _ => TipcardListResponse::default_value() }; match raw_nested(buf, f, cur) { Some(c) => { self.result = Some(ResponseResult::Tipcards(c)); true }, None => false } }
        } else if f.number == 8 {
            { let cur = match self.result.take() { Some(ResponseResult::ForceDailyRefresh(c)) => c, _ => ForceDailyRefreshResponse::default_value() }; match raw_nested(buf, f, cur) { Some(c) => { self.result = Some(ResponseResult::ForceDailyRefresh(c)); true }, None => false } }
        } else if f.number == 9 {
            { let cur = match self.result.take() { Some(ResponseResult::Settings(c)) => c, _ => SettingsResponse::default_value() }; match raw_nested(buf, f, cur) { Some(c) => { self.result = Some(ResponseResult::Settings(c)); true }, None => false } }
        } else if f.number == 10 {
            { let cur = match self.result.take() { Some(ResponseResult::ApiInfo(c)) => c, _ => ApiInfoResponse::default_value() }; match raw_nested(buf, f, cur) { Some(c) => { self.result = Some(ResponseResult::ApiInfo(c)); true }, None => false } }
        } else if f.number == 11 {
            { let cur = match self.result.take() { Some(ResponseResult::VisionModelTest(c)) => c, _ => VisionModelTestResponse::default_value() }; match raw_nested(buf, f, cur) { Some(c) => { self.result = Some(ResponseResult::VisionModelTest(c)); true }, None => false } }
        } else if f.number == 12 {
            { let cur = match self.result.take() { Some(ResponseResult::ApiKeys(c)) => c, _ => ApiKeyListResponse::default_value() }; match raw_nested(buf, f, cur) { Some(c) => { self.result = Some(ResponseResult::ApiKeys(c)); true }, None => false } }
        } else if f.number == 13 {
            { let cur = match self.result.take() { Some(ResponseResult::ApiKeyCreated(c)) => c, _ => ApiKeyCreatedResponse::default_value() }; match raw_nested(buf, f, cur) { Some(c) => { self.result = Some(ResponseResult::ApiKeyCreated(c)); true }, None => false } }
        } else if f.number == 14 {
            { let cur = match self.result.take() { Some(ResponseResult::Summary(c)) => c, _ => SummaryResponse::default_value() }; match raw_nested(buf, f, cur) { Some(c) => { self.result = Some(ResponseResult::Summary(c)); true }, None => false } }
        } else if f.number == 15 {
            { let cur = match self.result.take() { Some(ResponseResult::AppTopics(c)) => c, _ => AppTopicListResponse::default_value() }; match raw_nested(buf, f, cur) { Some(c) => { self.result = Some(ResponseResult::AppTopics(c)); true }, None => false } }
        } else if f.number == 16 {
            { let cur = match self.result.take() { Some(ResponseResult::Documents(c)) => c, _ => DocumentListResponse::default_value() }; match raw_nested(buf, f, cur) { Some(c) => { self.result = Some(ResponseResult::Documents(c)); true }, None => false } }
        } else if f.number == 17 {
            { let cur = match self.result.take() { Some(ResponseResult::DocumentDetail(c)) => c, _ => DocumentDetailResponse::default_value() }; match raw_nested(buf, f, cur) { Some(c) => { self.result = Some(ResponseResult::DocumentDetail(c)); true }, None => false } }
        } else if f.number == 18 {
            { let cur = match self.result.take() { Some(ResponseResult::DocumentCreated(c)) => c, _ => DocumentDetailResponse::default_value() }; match raw_nested(buf, f, cur) { Some(c) => { self.result = Some(ResponseResult::DocumentCreated(c)); true }, None => false } }
        } else if f.number == 19 {
            { let cur = match self.result.take() { Some(ResponseResult::ExploredLinks(c)) => c, _ => ExploredLinksResponse::default_value() }; match raw_nested(buf, f, cur) { Some(c) => { self.result = Some(ResponseResult::ExploredLinks(c)); true }, None => false } }
        } else if f.number == 20 {
            { let cur = match self.result.take() { Some(ResponseResult::PoolImages(c)) => c, _ => PoolImageListResponse::default_value() }; match raw_nested(buf, f, cur) { Some(c) => { self.result = Some(ResponseResult::PoolImages(c)); true }, None => false } }
        } else if f.number == 21 {
            { let cur = match self.result.take() { Some(ResponseResult::PoolImageCreated(c)) => c, _ => PoolImageCreatedResponse::default_value() }; match raw_nested(buf, f, cur) { Some(c) => { self.result = Some(ResponseResult::PoolImageCreated(c)); true }, None => false } }
        } else {
            true
        }
    }
}

impl ApiResponse {
    /// Appends the protobuf encoding of this message.
    pub fn encode_to(&self, out: &mut Vec<u8>)
        ensures
            final(out)@ == old(out)@ + self@.encoded(),
    {
        let ghost start = out@;
        proof {
            reveal(SpecApiResponse::fields);
        }
        let ghost s0 = SpecResponseResult::fields_of(self@.result);
        ResponseResult::put_oneof(out, &self.result);
        let ghost p0 = s0;
        assert(out@ =~= start + encode_fields(p0));
        assert(out@ =~= start + self@.encoded());
    }

    /// The protobuf encoding of this message.
    pub fn encode_to_vec(&self) -> (r: Vec<u8>)
        ensures
            r@ == self@.encoded(),
    {
        let mut out: Vec<u8> = Vec::new();
        self.encode_to(&mut out);
        assert(out@ =~= self@.encoded());
        out
    }

    /// Decodes a message; `None` where the bytes are not a valid encoding.
    pub fn decode(buf: &[u8]) -> (r: Option<ApiResponse>)
        ensures
            match decode_into(buf@, SpecApiResponse::empty()) {
                Some(m) => r matches Some(v) && v@ == m,
                None => r is None,
            },
    {
        decode_message::<ApiResponse>(buf)
    }

    /// Appends one length-delimited field `n` per element of `v`.
    pub fn put_repeated(out: &mut Vec<u8>, n: u32, v: &Vec<ApiResponse>)
        requires
            1 <= n <= MAX_FIELD_NUMBER,
        ensures
            final(out)@ == old(out)@ + encode_fields(seg_rep(n, SpecApiResponse::encode_all(Seq::new(v@.len(), |i: int| v@[i]@)))),
    {
        let ghost all = SpecApiResponse::encode_all(Seq::new(v@.len(), |i: int| v@[i]@));
        let mut part: Vec<u8> = Vec::new();
        let mut i: usize = 0;
        proof {
            lemma_seg_rep_full(n, all);
            lemma_encode_empty();
        }
        while i < v.len()
            invariant
                1 <= n <= MAX_FIELD_NUMBER,
                i <= v@.len(),
                all == SpecApiResponse::encode_all(Seq::new(v@.len(), |i: int| v@[i]@)),
                part@ == encode_fields(seg_rep(n, all.take(i as int))),
            decreases v@.len() - i,
        {
            let b = v[i].encode_to_vec();
            proof {
                assert(all.take(i as int).push(b@) =~= all.take(i + 1));
            }
            put_rep_item(&mut part, n, b.as_slice(), Ghost(all.take(i as int)));
            i = i + 1;
        }
        proof {
            lemma_seg_rep_full(n, all);
        }
        append_all(out, &part);
    }
}

proof fn lemma_api_response_result_done(c: SpecEmpty, x: SpecApiResponse)
    requires
        x.result is None,
        c.wf(),
        fits(c.encoded()),
    ensures
        merge_fields(seq![lfield(1, c.encoded())], x) == Some(SpecApiResponse { result: Some(SpecResponseResult::Done(c)), ..x }),
        fields_wf(seq![lfield(1, c.encoded())]),
{
    lemma_seg_len::<SpecApiResponse>(1, c.encoded(), x);
    lemma_round_empty(c);
    lemma_decode_encode_fields(c.fields(), SpecEmpty::empty());
}

proof fn lemma_api_response_result_flow_card_page(c: SpecFlowCardPageResponse, x: SpecApiResponse)
    requires
        x.result is None,
        c.wf(),
        fits(c.encoded()),
    ensures
        merge_fields(seq![lfield(2, c.encoded())], x) == Some(SpecApiResponse { result: Some(SpecResponseResult::FlowCardPage(c)), ..x }),
        fields_wf(seq![lfield(2, c.encoded())]),
{
    lemma_seg_len::<SpecApiResponse>(2, c.encoded(), x);
    lemma_round_flow_card_page_response(c);
    lemma_decode_encode_fields(c.fields(), SpecFlowCardPageResponse::empty());
}

proof fn lemma_api_response_result_tipcard_detail(c: SpecTipcardDetailResponse, x: SpecApiResponse)
    requires
        x.result is None,
        c.wf(),
        fits(c.encoded()),
    ensures
        merge_fields(seq![lfield(3, c.encoded())], x) == Some(SpecApiResponse { result: Some(SpecResponseResult::TipcardDetail(c)), ..x }),
        fields_wf(seq![lfield(3, c.encoded())]),
{
    lemma_seg_len::<SpecApiResponse>(3, c.encoded(), x);
    lemma_round_tipcard_detail_response(c);
    lemma_decode_encode_fields(c.fields(), SpecTipcardDetailResponse::empty());
}

proof fn lemma_api_response_result_tips(c: SpecTipsResponse, x: SpecApiResponse)
    requires
        x.result is None,
        c.wf(),
        fits(c.encoded()),
    ensures
        merge_fields(seq![lfield(4, c.encoded())], x) == Some(SpecApiResponse { result: Some(SpecResponseResult::Tips(c)), ..x }),
        fields_wf(seq![lfield(4, c.encoded())]),
{
    lemma_seg_len::<SpecApiResponse>(4, c.encoded(), x);
    lemma_round_tips_response(c);
    lemma_decode_encode_fields(c.fields(), SpecTipsResponse::empty());
}

proof fn lemma_api_response_result_review_and_advance(c: SpecReviewAndAdvanceResponse, x: SpecApiResponse)
    requires
        x.result is None,
        c.wf(),
        fits(c.encoded()),
    ensures
        merge_fields(seq![lfield(5, c.encoded())], x) == Some(SpecApiResponse { result: Some(SpecResponseResult::ReviewAndAdvance(c)), ..x }),
        fields_wf(seq![lfield(5, c.encoded())]),
{
    lemma_seg_len::<SpecApiResponse>(5, c.encoded(), x);
    lemma_round_review_and_advance_response(c);
    lemma_decode_encode_fields(c.fields(), SpecReviewAndAdvanceResponse::empty());
}

proof fn lemma_api_response_result_continue_daily_review(c: SpecContinueDailyReviewResponse, x: SpecApiResponse)
    requires
        x.result is None,
        c.wf(),
        fits(c.encoded()),
    ensures
        merge_fields(seq![lfield(6, c.encoded())], x) == Some(SpecApiResponse { result: Some(SpecResponseResult::ContinueDailyReview(c)), ..x }),
        fields_wf(seq![lfield(6, c.encoded())]),
{
    lemma_seg_len::<SpecApiResponse>(6, c.encoded(), x);
    lemma_round_continue_daily_review_response(c);
    lemma_decode_encode_fields(c.fields(), SpecContinueDailyReviewResponse::empty());
}

proof fn lemma_api_response_result_tipcards(c: SpecTipcardListResponse, x: SpecApiResponse)
    requires
        x.result is None,
        c.wf(),
        fits(c.encoded()),
    ensures
        merge_fields(seq![lfield(7, c.encoded())], x) == Some(SpecApiResponse { result: Some(SpecResponseResult::Tipcards(c)), ..x }),
        fields_wf(seq![lfield(7, c.encoded())]),
{
    lemma_seg_len::<SpecApiResponse>(7, c.encoded(), x);
    lemma_round_tipcard_list_response(c);
    lemma_decode_encode_fields(c.fields(), SpecTipcardListResponse::empty());
}

proof fn lemma_api_response_result_force_daily_refresh(c: SpecForceDailyRefreshResponse, x: SpecApiResponse)
    requires
        x.result is None,
        c.wf(),
        fits(c.encoded()),
    ensures
        merge_fields(seq![lfield(8, c.encoded())], x) == Some(SpecApiResponse { result: Some(SpecResponseResult::ForceDailyRefresh(c)), ..x }),
        fields_wf(seq![lfield(8, c.encoded())]),
{
    lemma_seg_len::<SpecApiResponse>(8, c.encoded(), x);
    lemma_round_force_daily_refresh_response(c);
    lemma_decode_encode_fields(c.fields(), SpecForceDailyRefreshResponse::empty());
}

proof fn lemma_api_response_result_settings(c: SpecSettingsResponse, x: SpecApiResponse)
    requires
        x.result is None,
        c.wf(),
        fits(c.encoded()),
    ensures
        merge_fields(seq![lfield(9, c.encoded())], x) == Some(SpecApiResponse { result: Some(SpecResponseResult::Settings(c)), ..x }),
        fields_wf(seq![lfield(9, c.encoded())]),
{
    lemma_seg_len::<SpecApiResponse>(9, c.encoded(), x);
    lemma_round_settings_response(c);
    lemma_decode_encode_fields(c.fields(), SpecSettingsResponse::empty());
}

proof fn lemma_api_response_result_api_info(c: SpecApiInfoResponse, x: SpecApiResponse)
    requires
        x.result is None,
        c.wf(),
        fits(c.encoded()),
    ensures
        merge_fields(seq![lfield(10, c.encoded())], x) == Some(SpecApiResponse { result: Some(SpecResponseResult::ApiInfo(c)), ..x }),
        fields_wf(seq![lfield(10, c.encoded())]),
{
    lemma_seg_len::<SpecApiResponse>(10, c.encoded(), x);
    lemma_round_api_info_response(c);
    lemma_decode_encode_fields(c.fields(), SpecApiInfoResponse::empty());
}

proof fn lemma_api_response_result_vision_model_test(c: SpecVisionModelTestResponse, x: SpecApiResponse)
    requires
        x.result is None,
        c.wf(),
        fits(c.encoded()),
    ensures
        merge_fields(seq![lfield(11, c.encoded())], x) == Some(SpecApiResponse { result: Some(SpecResponseResult::VisionModelTest(c)), ..x }),
        fields_wf(seq![lfield(11, c.encoded())]),
{
    lemma_seg_len::<SpecApiResponse>(11, c.encoded(), x);
    lemma_round_vision_model_test_response(c);
    lemma_decode_encode_fields(c.fields(), SpecVisionModelTestResponse::empty());
}

proof fn lemma_api_response_result_api_keys(c: SpecApiKeyListResponse, x: SpecApiResponse)
    requires
        x.result is None,
        c.wf(),
        fits(c.encoded()),
    ensures
        merge_fields(seq![lfield(12, c.encoded())], x) == Some(SpecApiResponse { result: Some(SpecResponseResult::ApiKeys(c)), ..x }),
        fields_wf(seq![lfield(12, c.encoded())]),
{
    lemma_seg_len::<SpecApiResponse>(12, c.encoded(), x);
    lemma_round_api_key_list_response(c);
    lemma_decode_encode_fields(c.fields(), SpecApiKeyListResponse::empty());
}

proof fn lemma_api_response_result_api_key_created(c: SpecApiKeyCreatedResponse, x: SpecApiResponse)
    requires
        x.result is None,
        c.wf(),
        fits(c.encoded()),
    ensures
        merge_fields(seq![lfield(13, c.encoded())], x) == Some(SpecApiResponse { result: Some(SpecResponseResult::ApiKeyCreated(c)), ..x }),
        fields_wf(seq![lfield(13, c.encoded())]),
{
    lemma_seg_len::<SpecApiResponse>(13, c.encoded(), x);
    lemma_round_api_key_created_response(c);
    lemma_decode_encode_fields(c.fields(), SpecApiKeyCreatedResponse::empty());
}

proof fn lemma_api_response_result_summary(c: SpecSummaryResponse, x: SpecApiResponse)
    requires
        x.result is None,
        c.wf(),
        fits(c.encoded()),
    ensures
        merge_fields(seq![lfield(14, c.encoded())], x) == Some(SpecApiResponse { result: Some(SpecResponseResult::Summary(c)), ..x }),
        fields_wf(seq![lfield(14, c.encoded())]),
{
    lemma_seg_len::<SpecApiResponse>(14, c.encoded(), x);
    lemma_round_summary_response(c);
    lemma_decode_encode_fields(c.fields(), SpecSummaryResponse::empty());
}

proof fn lemma_api_response_result_app_topics(c: SpecAppTopicListResponse, x: SpecApiResponse)
    requires
        x.result is None,
        c.wf(),
        fits(c.encoded()),
    ensures
        merge_fields(seq![lfield(15, c.encoded())], x) == Some(SpecApiResponse { result: Some(SpecResponseResult::AppTopics(c)), ..x }),
        fields_wf(seq![lfield(15, c.encoded())]),
{
    lemma_seg_len::<SpecApiResponse>(15, c.encoded(), x);
    lemma_round_app_topic_list_response(c);
    lemma_decode_encode_fields(c.fields(), SpecAppTopicListResponse::empty());
}

proof fn lemma_api_response_result_documents(c: SpecDocumentListResponse, x: SpecApiResponse)
    requires
        x.result is None,
        c.wf(),
        fits(c.encoded()),
    ensures
        merge_fields(seq![lfield(16, c.encoded())], x) == Some(SpecApiResponse { result: Some(SpecResponseResult::Documents(c)), ..x }),
        fields_wf(seq![lfield(16, c.encoded())]),
{
    lemma_seg_len::<SpecApiResponse>(16, c.encoded(), x);
    lemma_round_document_list_response(c);
    lemma_decode_encode_fields(c.fields(), SpecDocumentListResponse::empty());
}

proof fn lemma_api_response_result_document_detail(c: SpecDocumentDetailResponse, x: SpecApiResponse)
    requires
        x.result is None,
        c.wf(),
        fits(c.encoded()),
    ensures
        merge_fields(seq![lfield(17, c.encoded())], x) == Some(SpecApiResponse { result: Some(SpecResponseResult::DocumentDetail(c)), ..x }),
        fields_wf(seq![lfield(17, c.encoded())]),
{
    lemma_seg_len::<SpecApiResponse>(17, c.encoded(), x);
    lemma_round_document_detail_response(c);
    lemma_decode_encode_fields(c.fields(), SpecDocumentDetailResponse::empty());
}

proof fn lemma_api_response_result_document_created(c: SpecDocumentDetailResponse, x: SpecApiResponse)
    requires
        x.result is None,
        c.wf(),
        fits(c.encoded()),
    ensures
        merge_fields(seq![lfield(18, c.encoded())], x) == Some(SpecApiResponse { result: Some(SpecResponseResult::DocumentCreated(c)), ..x }),
        fields_wf(seq![lfield(18, c.encoded())]),
{
    lemma_seg_len::<SpecApiResponse>(18, c.encoded(), x);
    lemma_round_document_detail_response(c);
    lemma_decode_encode_fields(c.fields(), SpecDocumentDetailResponse::empty());
}

proof fn lemma_api_response_result_explored_links(c: SpecExploredLinksResponse, x: SpecApiResponse)
    requires
        x.result is None,
        c.wf(),
        fits(c.encoded()),
    ensures
        merge_fields(seq![lfield(19, c.encoded())], x) == Some(SpecApiResponse { result: Some(SpecResponseResult::ExploredLinks(c)), ..x }),
        fields_wf(seq![lfield(19, c.encoded())]),
{
    lemma_seg_len::<SpecApiResponse>(19, c.encoded(), x);
    lemma_round_explored_links_response(c);
    lemma_decode_encode_fields(c.fields(), SpecExploredLinksResponse::empty());
}

proof fn lemma_api_response_result_pool_images(c: SpecPoolImageListResponse, x: SpecApiResponse)
    requires
        x.result is None,
        c.wf(),
        fits(c.encoded()),
    ensures
        merge_fields(seq![lfield(20, c.encoded())], x) == Some(SpecApiResponse { result: Some(SpecResponseResult::PoolImages(c)), ..x }),
        fields_wf(seq![lfield(20, c.encoded())]),
{
    lemma_seg_len::<SpecApiResponse>(20, c.encoded(), x);
    lemma_round_pool_image_list_response(c);
    lemma_decode_encode_fields(c.fields(), SpecPoolImageListResponse::empty());
}

proof fn lemma_api_response_result_pool_image_created(c: SpecPoolImageCreatedResponse, x: SpecApiResponse)
    requires
        x.result is None,
        c.wf(),
        fits(c.encoded()),
    ensures
        merge_fields(seq![lfield(21, c.encoded())], x) == Some(SpecApiResponse { result: Some(SpecResponseResult::PoolImageCreated(c)), ..x }),
        fields_wf(seq![lfield(21, c.encoded())]),
{
    lemma_seg_len::<SpecApiResponse>(21, c.encoded(), x);
    lemma_round_pool_image_created_response(c);
    lemma_decode_encode_fields(c.fields(), SpecPoolImageCreatedResponse::empty());
}

proof fn lemma_api_response_result_oneof(o: Option<SpecResponseResult>, x: SpecApiResponse)
    requires
        x.result is None,
        SpecResponseResult::wf_of(o),
    ensures
        merge_fields(SpecResponseResult::fields_of(o), x) == Some(SpecApiResponse { result: o, ..x }),
        fields_wf(SpecResponseResult::fields_of(o)),
{
    reveal(SpecResponseResult::wf_of);
    match o {
        Some(SpecResponseResult::Done(c)) => lemma_api_response_result_done(c, x),
        Some(SpecResponseResult::FlowCardPage(c)) => lemma_api_response_result_flow_card_page(c, x),
        Some(SpecResponseResult::TipcardDetail(c)) => lemma_api_response_result_tipcard_detail(c, x),
        Some(SpecResponseResult::Tips(c)) => lemma_api_response_result_tips(c, x),
        Some(SpecResponseResult::ReviewAndAdvance(c)) => lemma_api_response_result_review_and_advance(c, x),
        Some(SpecResponseResult::ContinueDailyReview(c)) => lemma_api_response_result_continue_daily_review(c, x),
        Some(SpecResponseResult::Tipcards(c)) => lemma_api_response_result_tipcards(c, x),
        Some(SpecResponseResult::ForceDailyRefresh(c)) => lemma_api_response_result_force_daily_refresh(c, x),
        Some(SpecResponseResult::Settings(c)) => lemma_api_response_result_settings(c, x),
        Some(SpecResponseResult::ApiInfo(c)) => lemma_api_response_result_api_info(c, x),
        Some(SpecResponseResult::VisionModelTest(c)) => lemma_api_response_result_vision_model_test(c, x),
        Some(SpecResponseResult::ApiKeys(c)) => lemma_api_response_result_api_keys(c, x),
        Some(SpecResponseResult::ApiKeyCreated(c)) => lemma_api_response_result_api_key_created(c, x),
        Some(SpecResponseResult::Summary(c)) => lemma_api_response_result_summary(c, x),
        Some(SpecResponseResult::AppTopics(c)) => lemma_api_response_result_app_topics(c, x),
        Some(SpecResponseResult::Documents(c)) => lemma_api_response_result_documents(c, x),
        Some(SpecResponseResult::DocumentDetail(c)) => lemma_api_response_result_document_detail(c, x),
        Some(SpecResponseResult::DocumentCreated(c)) => lemma_api_response_result_document_created(c, x),
        Some(SpecResponseResult::ExploredLinks(c)) => lemma_api_response_result_explored_links(c, x),
        Some(SpecResponseResult::PoolImages(c)) => lemma_api_response_result_pool_images(c, x),
        Some(SpecResponseResult::PoolImageCreated(c)) => lemma_api_response_result_pool_image_created(c, x),
        None => lemma_seg_empty::<SpecApiResponse>(x),
    }
}

/// Decoding the fields of a well-formed `ApiResponse` gives it back.
pub proof fn lemma_round_api_response(m: SpecApiResponse)
    requires
        m.wf(),
    ensures
        merge_fields(m.fields(), SpecApiResponse::empty()) == Some(m),
        fields_wf(m.fields()),
{
    reveal(SpecApiResponse::fields);
    reveal(SpecApiResponse::wf);
    let x0 = SpecApiResponse::empty();
    let x1 = SpecApiResponse { result: m.result };
    let s0 = SpecResponseResult::fields_of(m.result);
    assert(merge_fields(s0, x0) == Some(x1) && fields_wf(s0)) by {
        lemma_api_response_result_oneof(m.result, x0);
    }
    let p0 = s0;
    assert(x1 == m);
}

/// A `ApiResponse` whose encoding has a length that fits a varint is well-formed.
pub proof fn lemma_wf_api_response(m: SpecApiResponse)
    requires
        fits(m.encoded()),
    ensures
        m.wf(),
{
    reveal(SpecApiResponse::fields);
    reveal(SpecApiResponse::wf);
    let s0 = SpecResponseResult::fields_of(m.result);
    let p0 = s0;
    lemma_wf_of_response_result(m.result);
}

/// The versioned response envelope.
#[derive(Clone, Debug, PartialEq, Default)]
pub struct ApiV1Response {
    pub request_id: String,
    pub outcome: Option<Outcome>,
}

/// The value of a [`ApiV1Response`].
pub struct SpecApiV1Response {
    pub request_id: Seq<char>,
    pub outcome: Option<SpecOutcome>,
}

impl View for ApiV1Response {
    type V = SpecApiV1Response;

    open spec fn view(&self) -> SpecApiV1Response {
        SpecApiV1Response {
            request_id: self.request_id@,
            outcome: match &self.outcome { Some(c) => Some(c@), None => None },
        }
    }
}

impl SpecApiV1Response {
    /// Every field at its default.
    pub open spec fn empty() -> SpecApiV1Response {
        SpecApiV1Response {
            request_id: Seq::empty(),
            outcome: None,
        }
    }

    /// The fields written for this value, in field-number order.
    #[verifier::opaque]
    pub open spec fn fields(self) -> Seq<SpecField> {
        seg_str(1, self.request_id)
            + SpecOutcome::fields_of(self.outcome)
    }

    pub open spec fn encoded(self) -> Seq<u8> {
        encode_fields(self.fields())
    }

    pub open spec fn encode_all(v: Seq<SpecApiV1Response>) -> Seq<Seq<u8>> {
        Seq::new(v.len(), |i: int| v[i].encoded())
    }

    /// Every length-delimited payload fits a varint length.
    #[verifier::opaque]
    pub open spec fn wf(self) -> bool {
        fits(encode_utf8(self.request_id))
        && SpecOutcome::wf_of(self.outcome)
    }
}

impl Message for SpecApiV1Response {
    open spec fn merge(self, f: SpecField) -> Option<SpecApiV1Response> {
        if f.number == 1 {
            match as_string(f.value) { Some(s) => Some(SpecApiV1Response { request_id: s, ..self }), None => None }
        } else if f.number == 2 {
            match merge_nested(f.value, match self.outcome { Some(SpecOutcome::Success(c)) => c, _ => SpecApiResponse::empty() }) { Some(c) => Some(SpecApiV1Response { outcome: Some(SpecOutcome::Success(c)), ..self }), None => None }
        } else if f.number == 3 {
            match merge_nested(f.value, match self.outcome { Some(SpecOutcome::Error(c)) => c, _ => SpecApiError::empty() }) { Some(c) => Some(SpecApiV1Response { outcome: Some(SpecOutcome::Error(c)), ..self }), None => None }
        } else {
            Some(self)
        }
    }
}

impl WireMessage for ApiV1Response {
    type Spec = SpecApiV1Response;

    open spec fn spec_of(&self) -> SpecApiV1Response {
        self@
    }

    open spec fn spec_default() -> SpecApiV1Response {
        SpecApiV1Response::empty()
    }

    fn default_value() -> (r: Self) {
        let r = ApiV1Response {
            request_id: String::new(),
            outcome: None,
        };
        r
    }

    fn merge_raw(&mut self, buf: &[u8], f: &RawField) -> (ok: bool) {
        if f.number == 1 {
            match raw_string(buf, f) { Some(s) => { self.request_id = s; true }, None => false }
        } else if f.number == 2 {
            { let cur = match self.outcome.take() { Some(Outcome::Success(c)) => c, _ => ApiResponse::default_value() }; match raw_nested(buf, f, cur) { Some(c) => { self.outcome = Some(Outcome::Success(c)); true }, None => false } }
        } else if f.number == 3 {
            { let cur = match self.outcome.take() { Some(Outcome::Error(c)) => c, _ => ApiError::default_value() }; match raw_nested(buf, f, cur) { Some(c) => { self.outcome = Some(Outcome::Error(c)); true }, None => false } }
        } else {
            true
        }
    }
}

impl ApiV1Response {
    /// Appends the protobuf encoding of this message.
    pub fn encode_to(&self, out: &mut Vec<u8>)
        ensures
            final(out)@ == old(out)@ + self@.encoded(),
    {
        let ghost start = out@;
        proof {
            reveal(SpecApiV1Response::fields);
        }
        let ghost s0 = seg_str(1, self@.request_id);
        put_str(out, 1, self.request_id.as_str());
        let ghost p0 = s0;
        assert(out@ =~= start + encode_fields(p0));
        let ghost s1 = SpecOutcome::fields_of(self@.outcome);
        Outcome::put_oneof(out, &self.outcome);
        let ghost p1 = p0 + s1;
        proof {
            lemma_encode_fields_append(p0, s1);
        }
        assert(out@ =~= start + encode_fields(p1));
        assert(out@ =~= start + self@.encoded());
    }

    /// The protobuf encoding of this message.
    pub fn encode_to_vec(&self) -> (r: Vec<u8>)
        ensures
            r@ == self@.encoded(),
    {
        let mut out: Vec<u8> = Vec::new();
        self.encode_to(&mut out);
        assert(out@ =~= self@.encoded());
        out
    }

    /// Decodes a message; `None` where the bytes are not a valid encoding.
    pub fn decode(buf: &[u8]) -> (r: Option<ApiV1Response>)
        ensures
            match decode_into(buf@, SpecApiV1Response::empty()) {
                Some(m) => r matches Some(v) && v@ == m,
                None => r is None,
            },
    {
        decode_message::<ApiV1Response>(buf)
    }

    /// Appends one length-delimited field `n` per element of `v`.
    pub fn put_repeated(out: &mut Vec<u8>, n: u32, v: &Vec<ApiV1Response>)
        requires
            1 <= n <= MAX_FIELD_NUMBER,
        ensures
            final(out)@ == old(out)@ + encode_fields(seg_rep(n, SpecApiV1Response::encode_all(Seq::new(v@.len(), |i: int| v@[i]@)))),
    {
        let ghost all = SpecApiV1Response::encode_all(Seq::new(v@.len(), |i: int| v@[i]@));
        let mut part: Vec<u8> = Vec::new();
        let mut i: usize = 0;
        proof {
            lemma_seg_rep_full(n, all);
            lemma_encode_empty();
        }
        while i < v.len()
            invariant
                1 <= n <= MAX_FIELD_NUMBER,
                i <= v@.len(),
                all == SpecApiV1Response::encode_all(Seq::new(v@.len(), |i: int| v@[i]@)),
                part@ == encode_fields(seg_rep(n, all.take(i as int))),
            decreases v@.len() - i,
        {
            let b = v[i].encode_to_vec();
            proof {
                assert(all.take(i as int).push(b@) =~= all.take(i + 1));
            }
            put_rep_item(&mut part, n, b.as_slice(), Ghost(all.take(i as int)));
            i = i + 1;
        }
        proof {
            lemma_seg_rep_full(n, all);
        }
        append_all(out, &part);
    }
}

proof fn lemma_api_v1_response_outcome_success(c: SpecApiResponse, x: SpecApiV1Response)
    requires
        x.outcome is None,
        c.wf(),
        fits(c.encoded()),
    ensures
        merge_fields(seq![lfield(2, c.encoded())], x) == Some(SpecApiV1Response { outcome: Some(SpecOutcome::Success(c)), ..x }),
        fields_wf(seq![lfield(2, c.encoded())]),
{
    lemma_seg_len::<SpecApiV1Response>(2, c.encoded(), x);
    lemma_round_api_response(c);
    lemma_decode_encode_fields(c.fields(), SpecApiResponse::empty());
}

proof fn lemma_api_v1_response_outcome_error(c: SpecApiError, x: SpecApiV1Response)
    requires
        x.outcome is None,
        c.wf(),
        fits(c.encoded()),
    ensures
        merge_fields(seq![lfield(3, c.encoded())], x) == Some(SpecApiV1Response { outcome: Some(SpecOutcome::Error(c)), ..x }),
        fields_wf(seq![lfield(3, c.encoded())]),
{
    lemma_seg_len::<SpecApiV1Response>(3, c.encoded(), x);
    lemma_round_api_error(c);
    lemma_decode_encode_fields(c.fields(), SpecApiError::empty());
}

proof fn lemma_api_v1_response_outcome_oneof(o: Option<SpecOutcome>, x: SpecApiV1Response)
    requires
        x.outcome is None,
        SpecOutcome::wf_of(o),
    ensures
        merge_fields(SpecOutcome::fields_of(o), x) == Some(SpecApiV1Response { outcome: o, ..x }),
        fields_wf(SpecOutcome::fields_of(o)),
{
    reveal(SpecOutcome::wf_of);
    match o {
        Some(SpecOutcome::Success(c)) => lemma_api_v1_response_outcome_success(c, x),
        Some(SpecOutcome::Error(c)) => lemma_api_v1_response_outcome_error(c, x),
        None => lemma_seg_empty::<SpecApiV1Response>(x),
    }
}

/// Decoding the fields of a well-formed `ApiV1Response` gives it back.
pub proof fn lemma_round_api_v1_response(m: SpecApiV1Response)
    requires
        m.wf(),
    ensures
        merge_fields(m.fields(), SpecApiV1Response::empty()) == Some(m),
        fields_wf(m.fields()),
{
    reveal(SpecApiV1Response::fields);
    reveal(SpecApiV1Response::wf);
    let x0 = SpecApiV1Response::empty();
    let x1 = SpecApiV1Response { request_id: m.request_id, outcome: None };
    let s0 = seg_str(1, m.request_id);
    assert(merge_fields(s0, x0) == Some(x1) && fields_wf(s0)) by {
        if m.request_id.len() == 0 { assert(m.request_id =~= Seq::<char>::empty()); lemma_seg_empty::<SpecApiV1Response>(x0); } else { lemma_seg_len::<SpecApiV1Response>(1, encode_utf8(m.request_id), x0); }
    }
    let p0 = s0;
    let x2 = SpecApiV1Response { request_id: m.request_id, outcome: m.outcome };
    let s1 = SpecOutcome::fields_of(m.outcome);
    assert(merge_fields(s1, x1) == Some(x2) && fields_wf(s1)) by {
        lemma_api_v1_response_outcome_oneof(m.outcome, x1);
    }
    let p1 = p0 + s1;
    lemma_chain::<SpecApiV1Response>(p0, s1, x0, x1, x2);
    assert(x2 == m);
}

/// A `ApiV1Response` whose encoding has a length that fits a varint is well-formed.
pub proof fn lemma_wf_api_v1_response(m: SpecApiV1Response)
    requires
        fits(m.encoded()),
    ensures
        m.wf(),
{
    reveal(SpecApiV1Response::fields);
    reveal(SpecApiV1Response::wf);
    let s0 = seg_str(1, m.request_id);
    let p0 = s0;
    let s1 = SpecOutcome::fields_of(m.outcome);
    let p1 = p0 + s1;
    lemma_fits_parts(p0, s1);
    lemma_fits_seg_str(1, m.request_id);
    lemma_wf_of_outcome(m.outcome);
}

/// A choice whose field fits is well-formed.
pub proof fn lemma_wf_of_response_result(o: Option<SpecResponseResult>)
    requires
        fits(encode_fields(SpecResponseResult::fields_of(o))),
    ensures
        SpecResponseResult::wf_of(o),
{
    reveal(SpecResponseResult::wf_of);
    match o {
        Some(SpecResponseResult::Done(c)) => {
            lemma_fits_one(1, c.encoded());
            lemma_wf_empty(c);
        },
        Some(SpecResponseResult::FlowCardPage(c)) => {
            lemma_fits_one(2, c.encoded());
            lemma_wf_flow_card_page_response(c);
        },
        Some(SpecResponseResult::TipcardDetail(c)) => {
            lemma_fits_one(3, c.encoded());
            lemma_wf_tipcard_detail_response(c);
        },
        Some(SpecResponseResult::Tips(c)) => {
            lemma_fits_one(4, c.encoded());
            lemma_wf_tips_response(c);
        },
        Some(SpecResponseResult::ReviewAndAdvance(c)) => {
            lemma_fits_one(5, c.encoded());
            lemma_wf_review_and_advance_response(c);
        },
        Some(SpecResponseResult::ContinueDailyReview(c)) => {
            lemma_fits_one(6, c.encoded());
            lemma_wf_continue_daily_review_response(c);
        },
        Some(SpecResponseResult::Tipcards(c)) => {
            lemma_fits_one(7, c.encoded());
            lemma_wf_tipcard_list_response(c);
        },
        Some(SpecResponseResult::ForceDailyRefresh(c)) => {
            lemma_fits_one(8, c.encoded());
            lemma_wf_force_daily_refresh_response(c);
        },
        Some(SpecResponseResult::Settings(c)) => {
            lemma_fits_one(9, c.encoded());
            lemma_wf_settings_response(c);
        },
        Some(SpecResponseResult::ApiInfo(c)) => {
            lemma_fits_one(10, c.encoded());
            lemma_wf_api_info_response(c);
        },
        Some(SpecResponseResult::VisionModelTest(c)) => {
            lemma_fits_one(11, c.encoded());
            lemma_wf_vision_model_test_response(c);
        },
        Some(SpecResponseResult::ApiKeys(c)) => {
            lemma_fits_one(12, c.encoded());
            lemma_wf_api_key_list_response(c);
        },
        Some(SpecResponseResult::ApiKeyCreated(c)) => {
            lemma_fits_one(13, c.encoded());
            lemma_wf_api_key_created_response(c);
        },
        Some(SpecResponseResult::Summary(c)) => {
            lemma_fits_one(14, c.encoded());
            lemma_wf_summary_response(c);
        },
        Some(SpecResponseResult::AppTopics(c)) => {
            lemma_fits_one(15, c.encoded());
            lemma_wf_app_topic_list_response(c);
        },
        Some(SpecResponseResult::Documents(c)) => {
            lemma_fits_one(16, c.encoded());
            lemma_wf_document_list_response(c);
        },
        Some(SpecResponseResult::DocumentDetail(c)) => {
            lemma_fits_one(17, c.encoded());
            lemma_wf_document_detail_response(c);
        },
        Some(SpecResponseResult::DocumentCreated(c)) => {
            lemma_fits_one(18, c.encoded());
            lemma_wf_document_detail_response(c);
        },
        Some(SpecResponseResult::ExploredLinks(c)) => {
            lemma_fits_one(19, c.encoded());
            lemma_wf_explored_links_response(c);
        },
        Some(SpecResponseResult::PoolImages(c)) => {
            lemma_fits_one(20, c.encoded());
            lemma_wf_pool_image_list_response(c);
        },
        Some(SpecResponseResult::PoolImageCreated(c)) => {
            lemma_fits_one(21, c.encoded());
            lemma_wf_pool_image_created_response(c);
        },
        None => {},
    }
}

/// A choice whose field fits is well-formed.
pub proof fn lemma_wf_of_outcome(o: Option<SpecOutcome>)
    requires
        fits(encode_fields(SpecOutcome::fields_of(o))),
    ensures
        SpecOutcome::wf_of(o),
{
    reveal(SpecOutcome::wf_of);
    match o {
        Some(SpecOutcome::Success(c)) => {
            lemma_fits_one(2, c.encoded());
            lemma_wf_api_response(c);
        },
        Some(SpecOutcome::Error(c)) => {
            lemma_fits_one(3, c.encoded());
            lemma_wf_api_error(c);
        },
        None => {},
    }
}

} // verus!
