//! Protobuf messages of API v1 requests.

use vstd::prelude::*;
use vstd::utf8::*;
use crate::wire::{
    decode_into, decode_message, encode_fields, fields_wf, lemma_decode_encode_fields,
    lemma_chain, lemma_encode_fields_append, lemma_fields_wf_append, lemma_merge_fields_append, merge_fields,
    Message, RawField, SpecField, WireMessage, MAX_FIELD_NUMBER,
};
use crate::codec::{
    append_all, lemma_encode_empty, as_bytes, as_i64s, as_string, as_varint, extend_i64, fits, i64s_as_u64s,
    lemma_fits_one, lemma_fits_parts, lemma_fits_seg_bytes, lemma_fits_seg_packed, lemma_fits_seg_rep,
    lemma_fits_seg_str, lemma_i64s_round, lemma_merge_one, lemma_rep_empty, lemma_rep_split, lemma_rep_wf,
    lemma_seg_empty, lemma_seg_len, lemma_seg_opt_u64, lemma_seg_rep_full, lemma_seg_u64, opt_string_view,
    lemma_zero_i32, lemma_zero_i64, lfield, merge_nested, opt_u64_seg, packed_bytes, put_bool,
    put_bytes, put_i32, put_i64, put_msg, put_opt_str, put_opt_u64, put_packed_i64, put_rep_item,
    put_rep_str, put_str, put_u32, put_u64, raw_bytes, raw_i64s, raw_nested, raw_string,
    raw_varint, seg_bool, seg_bytes, seg_i32, seg_i64, seg_msg, seg_opt_str, seg_packed_i64,
    seg_rep, seg_str, seg_u32, seg_u64, strings_view, utf8_all,
};

verus! {

broadcast use vstd::utf8::group_utf8_lib;

/// The operation an [`ApiRequest`] asks for.
#[derive(Clone, Debug, PartialEq)]
pub enum Op {
    GetApiInfo(Empty),
    ListFlowCards(ListFlowCardsRequest),
    GetTipcard(GetByIdRequest),
    TipsV1(TipsRequestV1),
    ReviewAndAdvance(ReviewAndAdvanceRequest),
    ContinueDailyReview(ContinueDailyReviewRequest),
    PinTipcard(PinTipcardRequest),
    DeleteTipcard(DeleteByIdRequest),
    ListTipcards(Empty),
    ForceDailyRefresh(ForceDailyRefreshRequest),
    GetSettings(Empty),
    UpdateSettings(UpdateSettingsRequest),
    TestVisionModel(Empty),
    ListApiKeys(Empty),
    CreateApiKey(CreateApiKeyRequest),
    DeleteApiKey(DeleteByIdRequest),
    GetSummary(Empty),
    ListAppTopics(Empty),
    UpdateTopic(UpdateTopicRequest),
    DeleteTopic(DeleteByIdRequest),
    ListDocuments(Empty),
    GetDocument(GetByIdRequest),
    CreateDocument(AddDocumentRequest),
    UploadDocument(UploadDocumentRequest),
    DeleteDocument(DeleteByIdRequest),
    AttachDocumentTopic(AttachDocumentTopicRequest),
    DetachDocumentTopic(AttachDocumentTopicRequest),
    ExploreLink(ExploreLinkRequest),
    ListPoolImages(Empty),
    CreatePoolImage(AddPoolImageRequest),
    DeletePoolImage(DeleteByIdRequest),
    ReviewV1(ReviewRequestV1),
}

pub enum SpecOp {
    GetApiInfo(SpecEmpty),
    ListFlowCards(SpecListFlowCardsRequest),
    GetTipcard(SpecGetByIdRequest),
    TipsV1(SpecTipsRequestV1),
    ReviewAndAdvance(SpecReviewAndAdvanceRequest),
    ContinueDailyReview(SpecContinueDailyReviewRequest),
    PinTipcard(SpecPinTipcardRequest),
    DeleteTipcard(SpecDeleteByIdRequest),
    ListTipcards(SpecEmpty),
    ForceDailyRefresh(SpecForceDailyRefreshRequest),
    GetSettings(SpecEmpty),
    UpdateSettings(SpecUpdateSettingsRequest),
    TestVisionModel(SpecEmpty),
    ListApiKeys(SpecEmpty),
    CreateApiKey(SpecCreateApiKeyRequest),
    DeleteApiKey(SpecDeleteByIdRequest),
    GetSummary(SpecEmpty),
    ListAppTopics(SpecEmpty),
    UpdateTopic(SpecUpdateTopicRequest),
    DeleteTopic(SpecDeleteByIdRequest),
    ListDocuments(SpecEmpty),
    GetDocument(SpecGetByIdRequest),
    CreateDocument(SpecAddDocumentRequest),
    UploadDocument(SpecUploadDocumentRequest),
    DeleteDocument(SpecDeleteByIdRequest),
    AttachDocumentTopic(SpecAttachDocumentTopicRequest),
    DetachDocumentTopic(SpecAttachDocumentTopicRequest),
    ExploreLink(SpecExploreLinkRequest),
    ListPoolImages(SpecEmpty),
    CreatePoolImage(SpecAddPoolImageRequest),
    DeletePoolImage(SpecDeleteByIdRequest),
    ReviewV1(SpecReviewRequestV1),
}

impl View for Op {
    type V = SpecOp;

    open spec fn view(&self) -> SpecOp {
        match self {
            Op::GetApiInfo(c) => SpecOp::GetApiInfo(c@),
            Op::ListFlowCards(c) => SpecOp::ListFlowCards(c@),
            Op::GetTipcard(c) => SpecOp::GetTipcard(c@),
            Op::TipsV1(c) => SpecOp::TipsV1(c@),
            Op::ReviewAndAdvance(c) => SpecOp::ReviewAndAdvance(c@),
            Op::ContinueDailyReview(c) => SpecOp::ContinueDailyReview(c@),
            Op::PinTipcard(c) => SpecOp::PinTipcard(c@),
            Op::DeleteTipcard(c) => SpecOp::DeleteTipcard(c@),
            Op::ListTipcards(c) => SpecOp::ListTipcards(c@),
            Op::ForceDailyRefresh(c) => SpecOp::ForceDailyRefresh(c@),
            Op::GetSettings(c) => SpecOp::GetSettings(c@),
            Op::UpdateSettings(c) => SpecOp::UpdateSettings(c@),
            Op::TestVisionModel(c) => SpecOp::TestVisionModel(c@),
            Op::ListApiKeys(c) => SpecOp::ListApiKeys(c@),
            Op::CreateApiKey(c) => SpecOp::CreateApiKey(c@),
            Op::DeleteApiKey(c) => SpecOp::DeleteApiKey(c@),
            Op::GetSummary(c) => SpecOp::GetSummary(c@),
            Op::ListAppTopics(c) => SpecOp::ListAppTopics(c@),
            Op::UpdateTopic(c) => SpecOp::UpdateTopic(c@),
            Op::DeleteTopic(c) => SpecOp::DeleteTopic(c@),
            Op::ListDocuments(c) => SpecOp::ListDocuments(c@),
            Op::GetDocument(c) => SpecOp::GetDocument(c@),
            Op::CreateDocument(c) => SpecOp::CreateDocument(c@),
            Op::UploadDocument(c) => SpecOp::UploadDocument(c@),
            Op::DeleteDocument(c) => SpecOp::DeleteDocument(c@),
            Op::AttachDocumentTopic(c) => SpecOp::AttachDocumentTopic(c@),
            Op::DetachDocumentTopic(c) => SpecOp::DetachDocumentTopic(c@),
            Op::ExploreLink(c) => SpecOp::ExploreLink(c@),
            Op::ListPoolImages(c) => SpecOp::ListPoolImages(c@),
            Op::CreatePoolImage(c) => SpecOp::CreatePoolImage(c@),
            Op::DeletePoolImage(c) => SpecOp::DeletePoolImage(c@),
            Op::ReviewV1(c) => SpecOp::ReviewV1(c@),
        }
    }
}

impl SpecOp {
    /// The one field written for a present choice.
    pub open spec fn fields_of(o: Option<SpecOp>) -> Seq<SpecField> {
        match o {
            Some(SpecOp::GetApiInfo(c)) => seq![lfield(10, c.encoded())],
            Some(SpecOp::ListFlowCards(c)) => seq![lfield(11, c.encoded())],
            Some(SpecOp::GetTipcard(c)) => seq![lfield(12, c.encoded())],
            Some(SpecOp::TipsV1(c)) => seq![lfield(13, c.encoded())],
            Some(SpecOp::ReviewAndAdvance(c)) => seq![lfield(14, c.encoded())],
            Some(SpecOp::ContinueDailyReview(c)) => seq![lfield(15, c.encoded())],
            Some(SpecOp::PinTipcard(c)) => seq![lfield(16, c.encoded())],
            Some(SpecOp::DeleteTipcard(c)) => seq![lfield(17, c.encoded())],
            Some(SpecOp::ListTipcards(c)) => seq![lfield(18, c.encoded())],
            Some(SpecOp::ForceDailyRefresh(c)) => seq![lfield(19, c.encoded())],
            Some(SpecOp::GetSettings(c)) => seq![lfield(20, c.encoded())],
            Some(SpecOp::UpdateSettings(c)) => seq![lfield(21, c.encoded())],
            Some(SpecOp::TestVisionModel(c)) => seq![lfield(22, c.encoded())],
            Some(SpecOp::ListApiKeys(c)) => seq![lfield(23, c.encoded())],
            Some(SpecOp::CreateApiKey(c)) => seq![lfield(24, c.encoded())],
            Some(SpecOp::DeleteApiKey(c)) => seq![lfield(25, c.encoded())],
            Some(SpecOp::GetSummary(c)) => seq![lfield(26, c.encoded())],
            Some(SpecOp::ListAppTopics(c)) => seq![lfield(27, c.encoded())],
            Some(SpecOp::UpdateTopic(c)) => seq![lfield(28, c.encoded())],
            Some(SpecOp::DeleteTopic(c)) => seq![lfield(29, c.encoded())],
            Some(SpecOp::ListDocuments(c)) => seq![lfield(30, c.encoded())],
            Some(SpecOp::GetDocument(c)) => seq![lfield(31, c.encoded())],
            Some(SpecOp::CreateDocument(c)) => seq![lfield(32, c.encoded())],
            Some(SpecOp::UploadDocument(c)) => seq![lfield(33, c.encoded())],
            Some(SpecOp::DeleteDocument(c)) => seq![lfield(34, c.encoded())],
            Some(SpecOp::AttachDocumentTopic(c)) => seq![lfield(35, c.encoded())],
            Some(SpecOp::DetachDocumentTopic(c)) => seq![lfield(36, c.encoded())],
            Some(SpecOp::ExploreLink(c)) => seq![lfield(37, c.encoded())],
            Some(SpecOp::ListPoolImages(c)) => seq![lfield(38, c.encoded())],
            Some(SpecOp::CreatePoolImage(c)) => seq![lfield(39, c.encoded())],
            Some(SpecOp::DeletePoolImage(c)) => seq![lfield(40, c.encoded())],
            Some(SpecOp::ReviewV1(c)) => seq![lfield(41, c.encoded())],
            None => Seq::empty(),
        }
    }

    #[verifier::opaque]
    pub open spec fn wf_of(o: Option<SpecOp>) -> bool {
        match o {
            Some(SpecOp::GetApiInfo(c)) => c.wf() && fits(c.encoded()),
            Some(SpecOp::ListFlowCards(c)) => c.wf() && fits(c.encoded()),
            Some(SpecOp::GetTipcard(c)) => c.wf() && fits(c.encoded()),
            Some(SpecOp::TipsV1(c)) => c.wf() && fits(c.encoded()),
            Some(SpecOp::ReviewAndAdvance(c)) => c.wf() && fits(c.encoded()),
            Some(SpecOp::ContinueDailyReview(c)) => c.wf() && fits(c.encoded()),
            Some(SpecOp::PinTipcard(c)) => c.wf() && fits(c.encoded()),
            Some(SpecOp::DeleteTipcard(c)) => c.wf() && fits(c.encoded()),
            Some(SpecOp::ListTipcards(c)) => c.wf() && fits(c.encoded()),
            Some(SpecOp::ForceDailyRefresh(c)) => c.wf() && fits(c.encoded()),
            Some(SpecOp::GetSettings(c)) => c.wf() && fits(c.encoded()),
            Some(SpecOp::UpdateSettings(c)) => c.wf() && fits(c.encoded()),
            Some(SpecOp::TestVisionModel(c)) => c.wf() && fits(c.encoded()),
            Some(SpecOp::ListApiKeys(c)) => c.wf() && fits(c.encoded()),
            Some(SpecOp::CreateApiKey(c)) => c.wf() && fits(c.encoded()),
            Some(SpecOp::DeleteApiKey(c)) => c.wf() && fits(c.encoded()),
            Some(SpecOp::GetSummary(c)) => c.wf() && fits(c.encoded()),
            Some(SpecOp::ListAppTopics(c)) => c.wf() && fits(c.encoded()),
            Some(SpecOp::UpdateTopic(c)) => c.wf() && fits(c.encoded()),
            Some(SpecOp::DeleteTopic(c)) => c.wf() && fits(c.encoded()),
            Some(SpecOp::ListDocuments(c)) => c.wf() && fits(c.encoded()),
            Some(SpecOp::GetDocument(c)) => c.wf() && fits(c.encoded()),
            Some(SpecOp::CreateDocument(c)) => c.wf() && fits(c.encoded()),
            Some(SpecOp::UploadDocument(c)) => c.wf() && fits(c.encoded()),
            Some(SpecOp::DeleteDocument(c)) => c.wf() && fits(c.encoded()),
            Some(SpecOp::AttachDocumentTopic(c)) => c.wf() && fits(c.encoded()),
            Some(SpecOp::DetachDocumentTopic(c)) => c.wf() && fits(c.encoded()),
            Some(SpecOp::ExploreLink(c)) => c.wf() && fits(c.encoded()),
            Some(SpecOp::ListPoolImages(c)) => c.wf() && fits(c.encoded()),
            Some(SpecOp::CreatePoolImage(c)) => c.wf() && fits(c.encoded()),
            Some(SpecOp::DeletePoolImage(c)) => c.wf() && fits(c.encoded()),
            Some(SpecOp::ReviewV1(c)) => c.wf() && fits(c.encoded()),
            None => true,
        }
    }
}

impl Op {
    /// Appends the field of a present choice.
    pub fn put_oneof(out: &mut Vec<u8>, o: &Option<Op>)
        ensures
            final(out)@ == old(out)@ + encode_fields(SpecOp::fields_of(match o { Some(c) => Some(c@), None => None })),
    {
        match o {
            Some(Op::GetApiInfo(c)) => {
                let b = c.encode_to_vec();
                put_msg(out, 10, b.as_slice());
            },
            Some(Op::ListFlowCards(c)) => {
                let b = c.encode_to_vec();
                put_msg(out, 11, b.as_slice());
            },
            Some(Op::GetTipcard(c)) => {
                let b = c.encode_to_vec();
                put_msg(out, 12, b.as_slice());
            },
            Some(Op::TipsV1(c)) => {
                let b = c.encode_to_vec();
                put_msg(out, 13, b.as_slice());
            },
            Some(Op::ReviewAndAdvance(c)) => {
                let b = c.encode_to_vec();
                put_msg(out, 14, b.as_slice());
            },
            Some(Op::ContinueDailyReview(c)) => {
                let b = c.encode_to_vec();
                put_msg(out, 15, b.as_slice());
            },
            Some(Op::PinTipcard(c)) => {
                let b = c.encode_to_vec();
                put_msg(out, 16, b.as_slice());
            },
            Some(Op::DeleteTipcard(c)) => {
                let b = c.encode_to_vec();
                put_msg(out, 17, b.as_slice());
            },
            Some(Op::ListTipcards(c)) => {
                let b = c.encode_to_vec();
                put_msg(out, 18, b.as_slice());
            },
            Some(Op::ForceDailyRefresh(c)) => {
                let b = c.encode_to_vec();
                put_msg(out, 19, b.as_slice());
            },
            Some(Op::GetSettings(c)) => {
                let b = c.encode_to_vec();
                put_msg(out, 20, b.as_slice());
            },
            Some(Op::UpdateSettings(c)) => {
                let b = c.encode_to_vec();
                put_msg(out, 21, b.as_slice());
            },
            Some(Op::TestVisionModel(c)) => {
                let b = c.encode_to_vec();
                put_msg(out, 22, b.as_slice());
            },
            Some(Op::ListApiKeys(c)) => {
                let b = c.encode_to_vec();
                put_msg(out, 23, b.as_slice());
            },
            Some(Op::CreateApiKey(c)) => {
                let b = c.encode_to_vec();
                put_msg(out, 24, b.as_slice());
            },
            Some(Op::DeleteApiKey(c)) => {
                let b = c.encode_to_vec();
                put_msg(out, 25, b.as_slice());
            },
            Some(Op::GetSummary(c)) => {
                let b = c.encode_to_vec();
                put_msg(out, 26, b.as_slice());
            },
            Some(Op::ListAppTopics(c)) => {
                let b = c.encode_to_vec();
                put_msg(out, 27, b.as_slice());
            },
            Some(Op::UpdateTopic(c)) => {
                let b = c.encode_to_vec();
                put_msg(out, 28, b.as_slice());
            },
            Some(Op::DeleteTopic(c)) => {
                let b = c.encode_to_vec();
                put_msg(out, 29, b.as_slice());
            },
            Some(Op::ListDocuments(c)) => {
                let b = c.encode_to_vec();
                put_msg(out, 30, b.as_slice());
            },
            Some(Op::GetDocument(c)) => {
                let b = c.encode_to_vec();
                put_msg(out, 31, b.as_slice());
            },
            Some(Op::CreateDocument(c)) => {
                let b = c.encode_to_vec();
                put_msg(out, 32, b.as_slice());
            },
            Some(Op::UploadDocument(c)) => {
                let b = c.encode_to_vec();
                put_msg(out, 33, b.as_slice());
            },
            Some(Op::DeleteDocument(c)) => {
                let b = c.encode_to_vec();
                put_msg(out, 34, b.as_slice());
            },
            Some(Op::AttachDocumentTopic(c)) => {
                let b = c.encode_to_vec();
                put_msg(out, 35, b.as_slice());
            },
            Some(Op::DetachDocumentTopic(c)) => {
                let b = c.encode_to_vec();
                put_msg(out, 36, b.as_slice());
            },
            Some(Op::ExploreLink(c)) => {
                let b = c.encode_to_vec();
                put_msg(out, 37, b.as_slice());
            },
            Some(Op::ListPoolImages(c)) => {
                let b = c.encode_to_vec();
                put_msg(out, 38, b.as_slice());
            },
            Some(Op::CreatePoolImage(c)) => {
                let b = c.encode_to_vec();
                put_msg(out, 39, b.as_slice());
            },
            Some(Op::DeletePoolImage(c)) => {
                let b = c.encode_to_vec();
                put_msg(out, 40, b.as_slice());
            },
            Some(Op::ReviewV1(c)) => {
                let b = c.encode_to_vec();
                put_msg(out, 41, b.as_slice());
            },
            None => {
                proof {
                    lemma_encode_empty();
                }
                assert(out@ =~= old(out)@ + encode_fields(Seq::<SpecField>::empty()));
            },
        }
    }
}

/// A message without fields.
#[derive(Clone, Debug, PartialEq, Default)]
pub struct Empty {
}

/// The value of a [`Empty`].
pub struct SpecEmpty {
}

impl View for Empty {
    type V = SpecEmpty;

    open spec fn view(&self) -> SpecEmpty {
        SpecEmpty {
        }
    }
}

impl SpecEmpty {
    /// Every field at its default.
    pub open spec fn empty() -> SpecEmpty {
        SpecEmpty {
        }
    }

    /// The fields written for this value, in field-number order.
    #[verifier::opaque]
    pub open spec fn fields(self) -> Seq<SpecField> {
        Seq::empty()
    }

    pub open spec fn encoded(self) -> Seq<u8> {
        encode_fields(self.fields())
    }

    pub open spec fn encode_all(v: Seq<SpecEmpty>) -> Seq<Seq<u8>> {
        Seq::new(v.len(), |i: int| v[i].encoded())
    }

    /// Every length-delimited payload fits a varint length.
    #[verifier::opaque]
    pub open spec fn wf(self) -> bool {
        true
    }
}

impl Message for SpecEmpty {
    open spec fn merge(self, f: SpecField) -> Option<SpecEmpty> {
        Some(self)
    }
}

impl WireMessage for Empty {
    type Spec = SpecEmpty;

    open spec fn spec_of(&self) -> SpecEmpty {
        self@
    }

    open spec fn spec_default() -> SpecEmpty {
        SpecEmpty::empty()
    }

    fn default_value() -> (r: Self) {
        let r = Empty {
        };
        r
    }

    fn merge_raw(&mut self, buf: &[u8], f: &RawField) -> (ok: bool) {
        true
    }
}

impl Empty {
    /// Appends the protobuf encoding of this message.
    pub fn encode_to(&self, out: &mut Vec<u8>)
        ensures
            final(out)@ == old(out)@ + self@.encoded(),
    {
        let ghost start = out@;
        proof {
            reveal(SpecEmpty::fields);
        }
        proof {
            lemma_encode_empty();
        }
        assert(out@ =~= start + self@.encoded());
    }

    /// The protobuf encoding of this message.
    pub fn encode_to_vec(&self) -> (r: Vec<u8>)
        ensures
            r@ == self@.encoded(),
    {
        let mut out: Vec<u8> = Vec::new();
        self.encode_to(&mut out);
        assert(out@ =~= self@.encoded());
        out
    }

    /// Decodes a message; `None` where the bytes are not a valid encoding.
    pub fn decode(buf: &[u8]) -> (r: Option<Empty>)
        ensures
            match decode_into(buf@, SpecEmpty::empty()) {
                Some(m) => r matches Some(v) && v@ == m,
                None => r is None,
            },
    {
        decode_message::<Empty>(buf)
    }

    /// Appends one length-delimited field `n` per element of `v`.
    pub fn put_repeated(out: &mut Vec<u8>, n: u32, v: &Vec<Empty>)
        requires
            1 <= n <= MAX_FIELD_NUMBER,
        ensures
            final(out)@ == old(out)@ + encode_fields(seg_rep(n, SpecEmpty::encode_all(Seq::new(v@.len(), |i: int| v@[i]@)))),
    {
        let ghost all = SpecEmpty::encode_all(Seq::new(v@.len(), |i: int| v@[i]@));
        let mut part: Vec<u8> = Vec::new();
        let mut i: usize = 0;
        proof {
            lemma_seg_rep_full(n, all);
            lemma_encode_empty();
        }
        while i < v.len()
            invariant
                1 <= n <= MAX_FIELD_NUMBER,
                i <= v@.len(),
                all == SpecEmpty::encode_all(Seq::new(v@.len(), |i: int| v@[i]@)),
                part@ == encode_fields(seg_rep(n, all.take(i as int))),
            decreases v@.len() - i,
        {
            let b = v[i].encode_to_vec();
            proof {
                assert(all.take(i as int).push(b@) =~= all.take(i + 1));
            }
            put_rep_item(&mut part, n, b.as_slice(), Ghost(all.take(i as int)));
            i = i + 1;
        }
        proof {
            lemma_seg_rep_full(n, all);
        }
        append_all(out, &part);
    }
}

/// Decoding the fields of a well-formed `Empty` gives it back.
pub proof fn lemma_round_empty(m: SpecEmpty)
    requires
        m.wf(),
    ensures
        merge_fields(m.fields(), SpecEmpty::empty()) == Some(m),
        fields_wf(m.fields()),
{
    reveal(SpecEmpty::fields);
    reveal(SpecEmpty::wf);
    let x0 = SpecEmpty::empty();
    lemma_seg_empty::<SpecEmpty>(x0);
    assert(x0 == m);
}

/// A `Empty` whose encoding has a length that fits a varint is well-formed.
pub proof fn lemma_wf_empty(m: SpecEmpty)
    requires
        fits(m.encoded()),
    ensures
        m.wf(),
{
    reveal(SpecEmpty::fields);
    reveal(SpecEmpty::wf);
}

/// Names one record by id.
#[derive(Clone, Debug, PartialEq, Default)]
pub struct GetByIdRequest {
    pub id: i64,
}

/// The value of a [`GetByIdRequest`].
pub struct SpecGetByIdRequest {
    pub id: i64,
}

impl View for GetByIdRequest {
    type V = SpecGetByIdRequest;

    open spec fn view(&self) -> SpecGetByIdRequest {
        SpecGetByIdRequest {
            id: self.id,
        }
    }
}

impl SpecGetByIdRequest {
    /// Every field at its default.
    pub open spec fn empty() -> SpecGetByIdRequest {
        SpecGetByIdRequest {
            id: 0i64,
        }
    }

    /// The fields written for this value, in field-number order.
    #[verifier::opaque]
    pub open spec fn fields(self) -> Seq<SpecField> {
        seg_i64(1, self.id)
    }

    pub open spec fn encoded(self) -> Seq<u8> {
        encode_fields(self.fields())
    }

    pub open spec fn encode_all(v: Seq<SpecGetByIdRequest>) -> Seq<Seq<u8>> {
        Seq::new(v.len(), |i: int| v[i].encoded())
    }

    /// Every length-delimited payload fits a varint length.
    #[verifier::opaque]
    pub open spec fn wf(self) -> bool {
        true
    }
}

impl Message for SpecGetByIdRequest {
    open spec fn merge(self, f: SpecField) -> Option<SpecGetByIdRequest> {
        if f.number == 1 {
            match as_varint(f.value) { Some(v) => Some(SpecGetByIdRequest { id: v as i64, ..self }), None => None }
        } else {
            Some(self)
        }
    }
}

impl WireMessage for GetByIdRequest {
    type Spec = SpecGetByIdRequest;

    open spec fn spec_of(&self) -> SpecGetByIdRequest {
        self@
    }

    open spec fn spec_default() -> SpecGetByIdRequest {
        SpecGetByIdRequest::empty()
    }

    fn default_value() -> (r: Self) {
        let r = GetByIdRequest {
            id: 0,
        };
        r
    }

    fn merge_raw(&mut self, buf: &[u8], f: &RawField) -> (ok: bool) {
        if f.number == 1 {
            match raw_varint(f) { Some(v) => { self.id = v as i64; true }, None => false }
        } else {
            true
        }
    }
}

impl GetByIdRequest {
    /// Appends the protobuf encoding of this message.
    pub fn encode_to(&self, out: &mut Vec<u8>)
        ensures
            final(out)@ == old(out)@ + self@.encoded(),
    {
        let ghost start = out@;
        proof {
            reveal(SpecGetByIdRequest::fields);
        }
        let ghost s0 = seg_i64(1, self@.id);
        put_i64(out, 1, self.id);
        let ghost p0 = s0;
        assert(out@ =~= start + encode_fields(p0));
        assert(out@ =~= start + self@.encoded());
    }

    /// The protobuf encoding of this message.
    pub fn encode_to_vec(&self) -> (r: Vec<u8>)
        ensures
            r@ == self@.encoded(),
    {
        let mut out: Vec<u8> = Vec::new();
        self.encode_to(&mut out);
        assert(out@ =~= self@.encoded());
        out
    }

    /// Decodes a message; `None` where the bytes are not a valid encoding.
    pub fn decode(buf: &[u8]) -> (r: Option<GetByIdRequest>)
        ensures
            match decode_into(buf@, SpecGetByIdRequest::empty()) {
                Some(m) => r matches Some(v) && v@ == m,
                None => r is None,
            },
    {
        decode_message::<GetByIdRequest>(buf)
    }

    /// Appends one length-delimited field `n` per element of `v`.
    pub fn put_repeated(out: &mut Vec<u8>, n: u32, v: &Vec<GetByIdRequest>)
        requires
            1 <= n <= MAX_FIELD_NUMBER,
        ensures
            final(out)@ == old(out)@ + encode_fields(seg_rep(n, SpecGetByIdRequest::encode_all(Seq::new(v@.len(), |i: int| v@[i]@)))),
    {
        let ghost all = SpecGetByIdRequest::encode_all(Seq::new(v@.len(), |i: int| v@[i]@));
        let mut part: Vec<u8> = Vec::new();
        let mut i: usize = 0;
        proof {
            lemma_seg_rep_full(n, all);
            lemma_encode_empty();
        }
        while i < v.len()
            invariant
                1 <= n <= MAX_FIELD_NUMBER,
                i <= v@.len(),
                all == SpecGetByIdRequest::encode_all(Seq::new(v@.len(), |i: int| v@[i]@)),
                part@ == encode_fields(seg_rep(n, all.take(i as int))),
            decreases v@.len() - i,
        {
            let b = v[i].encode_to_vec();
            proof {
                assert(all.take(i as int).push(b@) =~= all.take(i + 1));
            }
            put_rep_item(&mut part, n, b.as_slice(), Ghost(all.take(i as int)));
            i = i + 1;
        }
        proof {
            lemma_seg_rep_full(n, all);
        }
        append_all(out, &part);
    }
}

/// Decoding the fields of a well-formed `GetByIdRequest` gives it back.
pub proof fn lemma_round_get_by_id_request(m: SpecGetByIdRequest)
    requires
        m.wf(),
    ensures
        merge_fields(m.fields(), SpecGetByIdRequest::empty()) == Some(m),
        fields_wf(m.fields()),
{
    reveal(SpecGetByIdRequest::fields);
    reveal(SpecGetByIdRequest::wf);
    let x0 = SpecGetByIdRequest::empty();
    let x1 = SpecGetByIdRequest { id: m.id };
    let s0 = seg_i64(1, m.id);
    assert(merge_fields(s0, x0) == Some(x1) && fields_wf(s0)) by {
        lemma_zero_i64(m.id);
        lemma_seg_u64::<SpecGetByIdRequest>(1, m.id as u64, x0);
    }
    let p0 = s0;
    assert(x1 == m);
}

/// A `GetByIdRequest` whose encoding has a length that fits a varint is well-formed.
pub proof fn lemma_wf_get_by_id_request(m: SpecGetByIdRequest)
    requires
        fits(m.encoded()),
    ensures
        m.wf(),
{
    reveal(SpecGetByIdRequest::fields);
    reveal(SpecGetByIdRequest::wf);
}

/// Names one record to delete by id.
#[derive(Clone, Debug, PartialEq, Default)]
pub struct DeleteByIdRequest {
    pub id: i64,
}

/// The value of a [`DeleteByIdRequest`].
pub struct SpecDeleteByIdRequest {
    pub id: i64,
}

impl View for DeleteByIdRequest {
    type V = SpecDeleteByIdRequest;

    open spec fn view(&self) -> SpecDeleteByIdRequest {
        SpecDeleteByIdRequest {
            id: self.id,
        }
    }
}

impl SpecDeleteByIdRequest {
    /// Every field at its default.
    pub open spec fn empty() -> SpecDeleteByIdRequest {
        SpecDeleteByIdRequest {
            id: 0i64,
        }
    }

    /// The fields written for this value, in field-number order.
    #[verifier::opaque]
    pub open spec fn fields(self) -> Seq<SpecField> {
        seg_i64(1, self.id)
    }

    pub open spec fn encoded(self) -> Seq<u8> {
        encode_fields(self.fields())
    }

    pub open spec fn encode_all(v: Seq<SpecDeleteByIdRequest>) -> Seq<Seq<u8>> {
        Seq::new(v.len(), |i: int| v[i].encoded())
    }

    /// Every length-delimited payload fits a varint length.
    #[verifier::opaque]
    pub open spec fn wf(self) -> bool {
        true
    }
}

impl Message for SpecDeleteByIdRequest {
    open spec fn merge(self, f: SpecField) -> Option<SpecDeleteByIdRequest> {
        if f.number == 1 {
            match as_varint(f.value) { Some(v) => Some(SpecDeleteByIdRequest { id: v as i64, ..self }), None => None }
        } else {
            Some(self)
        }
    }
}

impl WireMessage for DeleteByIdRequest {
    type Spec = SpecDeleteByIdRequest;

    open spec fn spec_of(&self) -> SpecDeleteByIdRequest {
        self@
    }

    open spec fn spec_default() -> SpecDeleteByIdRequest {
        SpecDeleteByIdRequest::empty()
    }

    fn default_value() -> (r: Self) {
        let r = DeleteByIdRequest {
            id: 0,
        };
        r
    }

    fn merge_raw(&mut self, buf: &[u8], f: &RawField) -> (ok: bool) {
        if f.number == 1 {
            match raw_varint(f) { Some(v) => { self.id = v as i64; true }, None => false }
        } else {
            true
        }
    }
}

impl DeleteByIdRequest {
    /// Appends the protobuf encoding of this message.
    pub fn encode_to(&self, out: &mut Vec<u8>)
        ensures
            final(out)@ == old(out)@ + self@.encoded(),
    {
        let ghost start = out@;
        proof {
            reveal(SpecDeleteByIdRequest::fields);
        }
        let ghost s0 = seg_i64(1, self@.id);
        put_i64(out, 1, self.id);
        let ghost p0 = s0;
        assert(out@ =~= start + encode_fields(p0));
        assert(out@ =~= start + self@.encoded());
    }

    /// The protobuf encoding of this message.
    pub fn encode_to_vec(&self) -> (r: Vec<u8>)
        ensures
            r@ == self@.encoded(),
    {
        let mut out: Vec<u8> = Vec::new();
        self.encode_to(&mut out);
        assert(out@ =~= self@.encoded());
        out
    }

    /// Decodes a message; `None` where the bytes are not a valid encoding.
    pub fn decode(buf: &[u8]) -> (r: Option<DeleteByIdRequest>)
        ensures
            match decode_into(buf@, SpecDeleteByIdRequest::empty()) {
                Some(m) => r matches Some(v) && v@ == m,
                None => r is None,
            },
    {
        decode_message::<DeleteByIdRequest>(buf)
    }

    /// Appends one length-delimited field `n` per element of `v`.
    pub fn put_repeated(out: &mut Vec<u8>, n: u32, v: &Vec<DeleteByIdRequest>)
        requires
            1 <= n <= MAX_FIELD_NUMBER,
        ensures
            final(out)@ == old(out)@ + encode_fields(seg_rep(n, SpecDeleteByIdRequest::encode_all(Seq::new(v@.len(), |i: int| v@[i]@)))),
    {
        let ghost all = SpecDeleteByIdRequest::encode_all(Seq::new(v@.len(), |i: int| v@[i]@));
        let mut part: Vec<u8> = Vec::new();
        let mut i: usize = 0;
        proof {
            lemma_seg_rep_full(n, all);
            lemma_encode_empty();
        }
        while i < v.len()
            invariant
                1 <= n <= MAX_FIELD_NUMBER,
                i <= v@.len(),
                all == SpecDeleteByIdRequest::encode_all(Seq::new(v@.len(), |i: int| v@[i]@)),
                part@ == encode_fields(seg_rep(n, all.take(i as int))),
            decreases v@.len() - i,
        {
            let b = v[i].encode_to_vec();
            proof {
                assert(all.take(i as int).push(b@) =~= all.take(i + 1));
            }
            put_rep_item(&mut part, n, b.as_slice(), Ghost(all.take(i as int)));
            i = i + 1;
        }
        proof {
            lemma_seg_rep_full(n, all);
        }
        append_all(out, &part);
    }
}

/// Decoding the fields of a well-formed `DeleteByIdRequest` gives it back.
pub proof fn lemma_round_delete_by_id_request(m: SpecDeleteByIdRequest)
    requires
        m.wf(),
    ensures
        merge_fields(m.fields(), SpecDeleteByIdRequest::empty()) == Some(m),
        fields_wf(m.fields()),
{
    reveal(SpecDeleteByIdRequest::fields);
    reveal(SpecDeleteByIdRequest::wf);
    let x0 = SpecDeleteByIdRequest::empty();
    let x1 = SpecDeleteByIdRequest { id: m.id };
    let s0 = seg_i64(1, m.id);
    assert(merge_fields(s0, x0) == Some(x1) && fields_wf(s0)) by {
        lemma_zero_i64(m.id);
        lemma_seg_u64::<SpecDeleteByIdRequest>(1, m.id as u64, x0);
    }
    let p0 = s0;
    assert(x1 == m);
}

/// A `DeleteByIdRequest` whose encoding has a length that fits a varint is well-formed.
pub proof fn lemma_wf_delete_by_id_request(m: SpecDeleteByIdRequest)
    requires
        fits(m.encoded()),
    ensures
        m.wf(),
{
    reveal(SpecDeleteByIdRequest::fields);
    reveal(SpecDeleteByIdRequest::wf);
}

/// Asks for one page of flow cards.
#[derive(Clone, Debug, PartialEq, Default)]
pub struct ListFlowCardsRequest {
    pub page_size: u32,
    pub page_token: String,
}

/// The value of a [`ListFlowCardsRequest`].
pub struct SpecListFlowCardsRequest {
    pub page_size: u32,
    pub page_token: Seq<char>,
}

impl View for ListFlowCardsRequest {
    type V = SpecListFlowCardsRequest;

    open spec fn view(&self) -> SpecListFlowCardsRequest {
        SpecListFlowCardsRequest {
            page_size: self.page_size,
            page_token: self.page_token@,
        }
    }
}

impl SpecListFlowCardsRequest {
    /// Every field at its default.
    pub open spec fn empty() -> SpecListFlowCardsRequest {
        SpecListFlowCardsRequest {
            page_size: 0u32,
            page_token: Seq::empty(),
        }
    }

    /// The fields written for this value, in field-number order.
    #[verifier::opaque]
    pub open spec fn fields(self) -> Seq<SpecField> {
        seg_u32(1, self.page_size)
            + seg_str(2, self.page_token)
    }

    pub open spec fn encoded(self) -> Seq<u8> {
        encode_fields(self.fields())
    }

    pub open spec fn encode_all(v: Seq<SpecListFlowCardsRequest>) -> Seq<Seq<u8>> {
        Seq::new(v.len(), |i: int| v[i].encoded())
    }

    /// Every length-delimited payload fits a varint length.
    #[verifier::opaque]
    pub open spec fn wf(self) -> bool {
        fits(encode_utf8(self.page_token))
    }
}

impl Message for SpecListFlowCardsRequest {
    open spec fn merge(self, f: SpecField) -> Option<SpecListFlowCardsRequest> {
        if f.number == 1 {
            match as_varint(f.value) { Some(v) => Some(SpecListFlowCardsRequest { page_size: v as u32, ..self }), None => None }
        } else if f.number == 2 {
            match as_string(f.value) { Some(s) => Some(SpecListFlowCardsRequest { page_token: s, ..self }), None => None }
        } else {
            Some(self)
        }
    }
}

impl WireMessage for ListFlowCardsRequest {
    type Spec = SpecListFlowCardsRequest;

    open spec fn spec_of(&self) -> SpecListFlowCardsRequest {
        self@
    }

    open spec fn spec_default() -> SpecListFlowCardsRequest {
        SpecListFlowCardsRequest::empty()
    }

    fn default_value() -> (r: Self) {
        let r = ListFlowCardsRequest {
            page_size: 0,
            page_token: String::new(),
        };
        r
    }

    fn merge_raw(&mut self, buf: &[u8], f: &RawField) -> (ok: bool) {
        if f.number == 1 {
            match raw_varint(f) { Some(v) => { self.page_size = v as u32; true }, None => false }
        } else if f.number == 2 {
            match raw_string(buf, f) { Some(s) => { self.page_token = s; true }, None => false }
        } else {
            true
        }
    }
}

impl ListFlowCardsRequest {
    /// Appends the protobuf encoding of this message.
    pub fn encode_to(&self, out: &mut Vec<u8>)
        ensures
            final(out)@ == old(out)@ + self@.encoded(),
    {
        let ghost start = out@;
        proof {
            reveal(SpecListFlowCardsRequest::fields);
        }
        let ghost s0 = seg_u32(1, self@.page_size);
        put_u32(out, 1, self.page_size);
        let ghost p0 = s0;
        assert(out@ =~= start + encode_fields(p0));
        let ghost s1 = seg_str(2, self@.page_token);
        put_str(out, 2, self.page_token.as_str());
        let ghost p1 = p0 + s1;
        proof {
            lemma_encode_fields_append(p0, s1);
        }
        assert(out@ =~= start + encode_fields(p1));
        assert(out@ =~= start + self@.encoded());
    }

    /// The protobuf encoding of this message.
    pub fn encode_to_vec(&self) -> (r: Vec<u8>)
        ensures
            r@ == self@.encoded(),
    {
        let mut out: Vec<u8> = Vec::new();
        self.encode_to(&mut out);
        assert(out@ =~= self@.encoded());
        out
    }

    /// Decodes a message; `None` where the bytes are not a valid encoding.
    pub fn decode(buf: &[u8]) -> (r: Option<ListFlowCardsRequest>)
        ensures
            match decode_into(buf@, SpecListFlowCardsRequest::empty()) {
                Some(m) => r matches Some(v) && v@ == m,
                None => r is None,
            },
    {
        decode_message::<ListFlowCardsRequest>(buf)
    }

    /// Appends one length-delimited field `n` per element of `v`.
    pub fn put_repeated(out: &mut Vec<u8>, n: u32, v: &Vec<ListFlowCardsRequest>)
        requires
            1 <= n <= MAX_FIELD_NUMBER,
        ensures
            final(out)@ == old(out)@ + encode_fields(seg_rep(n, SpecListFlowCardsRequest::encode_all(Seq::new(v@.len(), |i: int| v@[i]@)))),
    {
        let ghost all = SpecListFlowCardsRequest::encode_all(Seq::new(v@.len(), |i: int| v@[i]@));
        let mut part: Vec<u8> = Vec::new();
        let mut i: usize = 0;
        proof {
            lemma_seg_rep_full(n, all);
            lemma_encode_empty();
        }
        while i < v.len()
            invariant
                1 <= n <= MAX_FIELD_NUMBER,
                i <= v@.len(),
                all == SpecListFlowCardsRequest::encode_all(Seq::new(v@.len(), |i: int| v@[i]@)),
                part@ == encode_fields(seg_rep(n, all.take(i as int))),
            decreases v@.len() - i,
        {
            let b = v[i].encode_to_vec();
            proof {
                assert(all.take(i as int).push(b@) =~= all.take(i + 1));
            }
            put_rep_item(&mut part, n, b.as_slice(), Ghost(all.take(i as int)));
            i = i + 1;
        }
        proof {
            lemma_seg_rep_full(n, all);
        }
        append_all(out, &part);
    }
}

/// Decoding the fields of a well-formed `ListFlowCardsRequest` gives it back.
pub proof fn lemma_round_list_flow_cards_request(m: SpecListFlowCardsRequest)
    requires
        m.wf(),
    ensures
        merge_fields(m.fields(), SpecListFlowCardsRequest::empty()) == Some(m),
        fields_wf(m.fields()),
{
    reveal(SpecListFlowCardsRequest::fields);
    reveal(SpecListFlowCardsRequest::wf);
    let x0 = SpecListFlowCardsRequest::empty();
    let x1 = SpecListFlowCardsRequest { page_size: m.page_size, page_token: Seq::empty() };
    let s0 = seg_u32(1, m.page_size);
    assert(merge_fields(s0, x0) == Some(x1) && fields_wf(s0)) by {
        lemma_seg_u64::<SpecListFlowCardsRequest>(1, m.page_size as u64, x0);
    }
    let p0 = s0;
    let x2 = SpecListFlowCardsRequest { page_size: m.page_size, page_token: m.page_token };
    let s1 = seg_str(2, m.page_token);
    assert(merge_fields(s1, x1) == Some(x2) && fields_wf(s1)) by {
        if m.page_token.len() == 0 { assert(m.page_token =~= Seq::<char>::empty()); lemma_seg_empty::<SpecListFlowCardsRequest>(x1); } else { lemma_seg_len::<SpecListFlowCardsRequest>(2, encode_utf8(m.page_token), x1); }
    }
    let p1 = p0 + s1;
    lemma_chain::<SpecListFlowCardsRequest>(p0, s1, x0, x1, x2);
    assert(x2 == m);
}

/// A `ListFlowCardsRequest` whose encoding has a length that fits a varint is well-formed.
pub proof fn lemma_wf_list_flow_cards_request(m: SpecListFlowCardsRequest)
    requires
        fits(m.encoded()),
    ensures
        m.wf(),
{
    reveal(SpecListFlowCardsRequest::fields);
    reveal(SpecListFlowCardsRequest::wf);
    let s0 = seg_u32(1, m.page_size);
    let p0 = s0;
    let s1 = seg_str(2, m.page_token);
    let p1 = p0 + s1;
    lemma_fits_parts(p0, s1);
    lemma_fits_seg_str(2, m.page_token);
}

/// Pins or unpins a card.
#[derive(Clone, Debug, PartialEq, Default)]
pub struct PinTipcardRequest {
    pub id: i64,
    pub pinned: bool,
}

/// The value of a [`PinTipcardRequest`].
pub struct SpecPinTipcardRequest {
    pub id: i64,
    pub pinned: bool,
}

impl View for PinTipcardRequest {
    type V = SpecPinTipcardRequest;

    open spec fn view(&self) -> SpecPinTipcardRequest {
        SpecPinTipcardRequest {
            id: self.id,
            pinned: self.pinned,
        }
    }
}

impl SpecPinTipcardRequest {
    /// Every field at its default.
    pub open spec fn empty() -> SpecPinTipcardRequest {
        SpecPinTipcardRequest {
            id: 0i64,
            pinned: false,
        }
    }

    /// The fields written for this value, in field-number order.
    #[verifier::opaque]
    pub open spec fn fields(self) -> Seq<SpecField> {
        seg_i64(1, self.id)
            + seg_bool(2, self.pinned)
    }

    pub open spec fn encoded(self) -> Seq<u8> {
        encode_fields(self.fields())
    }

    pub open spec fn encode_all(v: Seq<SpecPinTipcardRequest>) -> Seq<Seq<u8>> {
        Seq::new(v.len(), |i: int| v[i].encoded())
    }

    /// Every length-delimited payload fits a varint length.
    #[verifier::opaque]
    pub open spec fn wf(self) -> bool {
        true
    }
}

impl Message for SpecPinTipcardRequest {
    open spec fn merge(self, f: SpecField) -> Option<SpecPinTipcardRequest> {
        if f.number == 1 {
            match as_varint(f.value) { Some(v) => Some(SpecPinTipcardRequest { id: v as i64, ..self }), None => None }
        } else if f.number == 2 {
            match as_varint(f.value) { Some(v) => Some(SpecPinTipcardRequest { pinned: v != 0, ..self }), None => None }
        } else {
            Some(self)
        }
    }
}

impl WireMessage for PinTipcardRequest {
    type Spec = SpecPinTipcardRequest;

    open spec fn spec_of(&self) -> SpecPinTipcardRequest {
        self@
    }

    open spec fn spec_default() -> SpecPinTipcardRequest {
        SpecPinTipcardRequest::empty()
    }

    fn default_value() -> (r: Self) {
        let r = PinTipcardRequest {
            id: 0,
            pinned: false,
        };
        r
    }

    fn merge_raw(&mut self, buf: &[u8], f: &RawField) -> (ok: bool) {
        if f.number == 1 {
            match raw_varint(f) { Some(v) => { self.id = v as i64; true }, None => false }
        } else if f.number == 2 {
            match raw_varint(f) { Some(v) => { self.pinned = v != 0; true }, None => false }
        } else {
            true
        }
    }
}

impl PinTipcardRequest {
    /// Appends the protobuf encoding of this message.
    pub fn encode_to(&self, out: &mut Vec<u8>)
        ensures
            final(out)@ == old(out)@ + self@.encoded(),
    {
        let ghost start = out@;
        proof {
            reveal(SpecPinTipcardRequest::fields);
        }
        let ghost s0 = seg_i64(1, self@.id);
        put_i64(out, 1, self.id);
        let ghost p0 = s0;
        assert(out@ =~= start + encode_fields(p0));
        let ghost s1 = seg_bool(2, self@.pinned);
        put_bool(out, 2, self.pinned);
        let ghost p1 = p0 + s1;
        proof {
            lemma_encode_fields_append(p0, s1);
        }
        assert(out@ =~= start + encode_fields(p1));
        assert(out@ =~= start + self@.encoded());
    }

    /// The protobuf encoding of this message.
    pub fn encode_to_vec(&self) -> (r: Vec<u8>)
        ensures
            r@ == self@.encoded(),
    {
        let mut out: Vec<u8> = Vec::new();
        self.encode_to(&mut out);
        assert(out@ =~= self@.encoded());
        out
    }

    /// Decodes a message; `None` where the bytes are not a valid encoding.
    pub fn decode(buf: &[u8]) -> (r: Option<PinTipcardRequest>)
        ensures
            match decode_into(buf@, SpecPinTipcardRequest::empty()) {
                Some(m) => r matches Some(v) && v@ == m,
                None => r is None,
            },
    {
        decode_message::<PinTipcardRequest>(buf)
    }

    /// Appends one length-delimited field `n` per element of `v`.
    pub fn put_repeated(out: &mut Vec<u8>, n: u32, v: &Vec<PinTipcardRequest>)
        requires
            1 <= n <= MAX_FIELD_NUMBER,
        ensures
            final(out)@ == old(out)@ + encode_fields(seg_rep(n, SpecPinTipcardRequest::encode_all(Seq::new(v@.len(), |i: int| v@[i]@)))),
    {
        let ghost all = SpecPinTipcardRequest::encode_all(Seq::new(v@.len(), |i: int| v@[i]@));
        let mut part: Vec<u8> = Vec::new();
        let mut i: usize = 0;
        proof {
            lemma_seg_rep_full(n, all);
            lemma_encode_empty();
        }
        while i < v.len()
            invariant
                1 <= n <= MAX_FIELD_NUMBER,
                i <= v@.len(),
                all == SpecPinTipcardRequest::encode_all(Seq::new(v@.len(), |i: int| v@[i]@)),
                part@ == encode_fields(seg_rep(n, all.take(i as int))),
            decreases v@.len() - i,
        {
            let b = v[i].encode_to_vec();
            proof {
                assert(all.take(i as int).push(b@) =~= all.take(i + 1));
            }
            put_rep_item(&mut part, n, b.as_slice(), Ghost(all.take(i as int)));
            i = i + 1;
        }
        proof {
            lemma_seg_rep_full(n, all);
        }
        append_all(out, &part);
    }
}

/// Decoding the fields of a well-formed `PinTipcardRequest` gives it back.
pub proof fn lemma_round_pin_tipcard_request(m: SpecPinTipcardRequest)
    requires
        m.wf(),
    ensures
        merge_fields(m.fields(), SpecPinTipcardRequest::empty()) == Some(m),
        fields_wf(m.fields()),
{
    reveal(SpecPinTipcardRequest::fields);
    reveal(SpecPinTipcardRequest::wf);
    let x0 = SpecPinTipcardRequest::empty();
    let x1 = SpecPinTipcardRequest { id: m.id, pinned: false };
    let s0 = seg_i64(1, m.id);
    assert(merge_fields(s0, x0) == Some(x1) && fields_wf(s0)) by {
        lemma_zero_i64(m.id);
        lemma_seg_u64::<SpecPinTipcardRequest>(1, m.id as u64, x0);
    }
    let p0 = s0;
    let x2 = SpecPinTipcardRequest { id: m.id, pinned: m.pinned };
    let s1 = seg_bool(2, m.pinned);
    assert(merge_fields(s1, x1) == Some(x2) && fields_wf(s1)) by {
        lemma_seg_u64::<SpecPinTipcardRequest>(2, if m.pinned { 1u64 } else { 0u64 }, x1);
    }
    let p1 = p0 + s1;
    lemma_chain::<SpecPinTipcardRequest>(p0, s1, x0, x1, x2);
    assert(x2 == m);
}

/// A `PinTipcardRequest` whose encoding has a length that fits a varint is well-formed.
pub proof fn lemma_wf_pin_tipcard_request(m: SpecPinTipcardRequest)
    requires
        fits(m.encoded()),
    ensures
        m.wf(),
{
    reveal(SpecPinTipcardRequest::fields);
    reveal(SpecPinTipcardRequest::wf);
}

/// Asks for new cards, generated or written by hand.
#[derive(Clone, Debug, PartialEq, Default)]
pub struct TipsRequestV1 {
    pub count: u32,
    pub topics: Vec<String>,
    pub tipcard_type: i32,
    pub exclude_card_ids: Vec<i64>,
    pub manual_content: String,
    pub manual_compressed_content: String,
    pub manual_image_data: Vec<String>,
}

/// The value of a [`TipsRequestV1`].
pub struct SpecTipsRequestV1 {
    pub count: u32,
    pub topics: Seq<Seq<char>>,
    pub tipcard_type: i32,
    pub exclude_card_ids: Seq<i64>,
    pub manual_content: Seq<char>,
    pub manual_compressed_content: Seq<char>,
    pub manual_image_data: Seq<Seq<char>>,
}

impl View for TipsRequestV1 {
    type V = SpecTipsRequestV1;

    open spec fn view(&self) -> SpecTipsRequestV1 {
        SpecTipsRequestV1 {
            count: self.count,
            topics: strings_view(self.topics@),
            tipcard_type: self.tipcard_type,
            exclude_card_ids: self.exclude_card_ids@,
            manual_content: self.manual_content@,
            manual_compressed_content: self.manual_compressed_content@,
            manual_image_data: strings_view(self.manual_image_data@),
        }
    }
}

impl SpecTipsRequestV1 {
    /// Every field at its default.
    pub open spec fn empty() -> SpecTipsRequestV1 {
        SpecTipsRequestV1 {
            count: 0u32,
            topics: Seq::empty(),
            tipcard_type: 0i32,
            exclude_card_ids: Seq::empty(),
            manual_content: Seq::empty(),
            manual_compressed_content: Seq::empty(),
            manual_image_data: Seq::empty(),
        }
    }

    /// The fields written for this value, in field-number order.
    #[verifier::opaque]
    pub open spec fn fields(self) -> Seq<SpecField> {
        seg_u32(1, self.count)
            + seg_rep(2, utf8_all(self.topics))
            + seg_i32(3, self.tipcard_type)
            + seg_packed_i64(4, self.exclude_card_ids)
            + seg_str(5, self.manual_content)
            + seg_str(6, self.manual_compressed_content)
            + seg_rep(7, utf8_all(self.manual_image_data))
    }

    pub open spec fn encoded(self) -> Seq<u8> {
        encode_fields(self.fields())
    }

    pub open spec fn encode_all(v: Seq<SpecTipsRequestV1>) -> Seq<Seq<u8>> {
        Seq::new(v.len(), |i: int| v[i].encoded())
    }

    /// Every length-delimited payload fits a varint length.
    #[verifier::opaque]
    pub open spec fn wf(self) -> bool {
        (forall|i: int| 0 <= i < self.topics.len() ==> fits(#[trigger] utf8_all(self.topics)[i]))
        && fits(packed_bytes(i64s_as_u64s(self.exclude_card_ids)))
        && fits(encode_utf8(self.manual_content))
        && fits(encode_utf8(self.manual_compressed_content))
        && (forall|i: int| 0 <= i < self.manual_image_data.len() ==> fits(#[trigger] utf8_all(self.manual_image_data)[i]))
    }
}

impl Message for SpecTipsRequestV1 {
    open spec fn merge(self, f: SpecField) -> Option<SpecTipsRequestV1> {
        if f.number == 1 {
            match as_varint(f.value) { Some(v) => Some(SpecTipsRequestV1 { count: v as u32, ..self }), None => None }
        } else if f.number == 2 {
            match as_string(f.value) { Some(s) => Some(SpecTipsRequestV1 { topics: self.topics.push(s), ..self }), None => None }
        } else if f.number == 3 {
            match as_varint(f.value) { Some(v) => Some(SpecTipsRequestV1 { tipcard_type: v as i32, ..self }), None => None }
        } else if f.number == 4 {
            match as_i64s(f.value) { Some(vs) => Some(SpecTipsRequestV1 { exclude_card_ids: self.exclude_card_ids + vs, ..self }), None => None }
        } else if f.number == 5 {
            match as_string(f.value) { Some(s) => Some(SpecTipsRequestV1 { manual_content: s, ..self }), None => None }
        } else if f.number == 6 {
            match as_string(f.value) { Some(s) => Some(SpecTipsRequestV1 { manual_compressed_content: s, ..self }), None => None }
        } else if f.number == 7 {
            match as_string(f.value) { Some(s) => Some(SpecTipsRequestV1 { manual_image_data: self.manual_image_data.push(s), ..self }), None => None }
        } else {
            Some(self)
        }
    }
}

impl WireMessage for TipsRequestV1 {
    type Spec = SpecTipsRequestV1;

    open spec fn spec_of(&self) -> SpecTipsRequestV1 {
        self@
    }

    open spec fn spec_default() -> SpecTipsRequestV1 {
        SpecTipsRequestV1::empty()
    }

    fn default_value() -> (r: Self) {
        let r = TipsRequestV1 {
            count: 0,
            topics: Vec::new(),
            tipcard_type: 0,
            exclude_card_ids: Vec::new(),
            manual_content: String::new(),
            manual_compressed_content: String::new(),
            manual_image_data: Vec::new(),
        };
        assert(r@.topics =~= Seq::empty());
        assert(r@.manual_image_data =~= Seq::empty());
        r
    }

    fn merge_raw(&mut self, buf: &[u8], f: &RawField) -> (ok: bool) {
        if f.number == 1 {
            match raw_varint(f) { Some(v) => { self.count = v as u32; true }, None => false }
        } else if f.number == 2 {
            match raw_string(buf, f) { Some(s) => { self.topics.push(s); proof { assert(self@.topics =~= old(self)@.topics.push(self.topics@.last()@)); } true }, None => false }
        } else if f.number == 3 {
            match raw_varint(f) { Some(v) => { self.tipcard_type = v as i32; true }, None => false }
        } else if f.number == 4 {
            match raw_i64s(buf, f) { Some(vs) => { extend_i64(&mut self.exclude_card_ids, &vs); true }, None => false }
        } else if f.number == 5 {
            match raw_string(buf, f) { Some(s) => { self.manual_content = s; true }, None => false }
        } else if f.number == 6 {
            match raw_string(buf, f) { Some(s) => { self.manual_compressed_content = s; true }, None => false }
        } else if f.number == 7 {
            match raw_string(buf, f) { Some(s) => { self.manual_image_data.push(s); proof { assert(self@.manual_image_data =~= old(self)@.manual_image_data.push(self.manual_image_data@.last()@)); } true }, None => false }
        } else {
            true
        }
    }
}

impl TipsRequestV1 {
    /// Appends the protobuf encoding of this message.
    pub fn encode_to(&self, out: &mut Vec<u8>)
        ensures
            final(out)@ == old(out)@ + self@.encoded(),
    {
        let ghost start = out@;
        proof {
            reveal(SpecTipsRequestV1::fields);
        }
        let ghost s0 = seg_u32(1, self@.count);
        put_u32(out, 1, self.count);
        let ghost p0 = s0;
        assert(out@ =~= start + encode_fields(p0));
        let ghost s1 = seg_rep(2, utf8_all(self@.topics));
        put_rep_str(out, 2, &self.topics);
        let ghost p1 = p0 + s1;
        proof {
            lemma_encode_fields_append(p0, s1);
        }
        assert(out@ =~= start + encode_fields(p1));
        let ghost s2 = seg_i32(3, self@.tipcard_type);
        put_i32(out, 3, self.tipcard_type);
        let ghost p2 = p1 + s2;
        proof {
            lemma_encode_fields_append(p1, s2);
        }
        assert(out@ =~= start + encode_fields(p2));
        let ghost s3 = seg_packed_i64(4, self@.exclude_card_ids);
        put_packed_i64(out, 4, &self.exclude_card_ids);
        let ghost p3 = p2 + s3;
        proof {
            lemma_encode_fields_append(p2, s3);
        }
        assert(out@ =~= start + encode_fields(p3));
        let ghost s4 = seg_str(5, self@.manual_content);
        put_str(out, 5, self.manual_content.as_str());
        let ghost p4 = p3 + s4;
        proof {
            lemma_encode_fields_append(p3, s4);
        }
        assert(out@ =~= start + encode_fields(p4));
        let ghost s5 = seg_str(6, self@.manual_compressed_content);
        put_str(out, 6, self.manual_compressed_content.as_str());
        let ghost p5 = p4 + s5;
        proof {
            lemma_encode_fields_append(p4, s5);
        }
        assert(out@ =~= start + encode_fields(p5));
        let ghost s6 = seg_rep(7, utf8_all(self@.manual_image_data));
        put_rep_str(out, 7, &self.manual_image_data);
        let ghost p6 = p5 + s6;
        proof {
            lemma_encode_fields_append(p5, s6);
        }
        assert(out@ =~= start + encode_fields(p6));
        assert(out@ =~= start + self@.encoded());
    }

    /// The protobuf encoding of this message.
    pub fn encode_to_vec(&self) -> (r: Vec<u8>)
        ensures
            r@ == self@.encoded(),
    {
        let mut out: Vec<u8> = Vec::new();
        self.encode_to(&mut out);
        assert(out@ =~= self@.encoded());
        out
    }

    /// Decodes a message; `None` where the bytes are not a valid encoding.
    pub fn decode(buf: &[u8]) -> (r: Option<TipsRequestV1>)
        ensures
            match decode_into(buf@, SpecTipsRequestV1::empty()) {
                Some(m) => r matches Some(v) && v@ == m,
                None => r is None,
            },
    {
        decode_message::<TipsRequestV1>(buf)
    }

    /// Appends one length-delimited field `n` per element of `v`.
    pub fn put_repeated(out: &mut Vec<u8>, n: u32, v: &Vec<TipsRequestV1>)
        requires
            1 <= n <= MAX_FIELD_NUMBER,
        ensures
            final(out)@ == old(out)@ + encode_fields(seg_rep(n, SpecTipsRequestV1::encode_all(Seq::new(v@.len(), |i: int| v@[i]@)))),
    {
        let ghost all = SpecTipsRequestV1::encode_all(Seq::new(v@.len(), |i: int| v@[i]@));
        let mut part: Vec<u8> = Vec::new();
        let mut i: usize = 0;
        proof {
            lemma_seg_rep_full(n, all);
            lemma_encode_empty();
        }
        while i < v.len()
            invariant
                1 <= n <= MAX_FIELD_NUMBER,
                i <= v@.len(),
                all == SpecTipsRequestV1::encode_all(Seq::new(v@.len(), |i: int| v@[i]@)),
                part@ == encode_fields(seg_rep(n, all.take(i as int))),
            decreases v@.len() - i,
        {
            let b = v[i].encode_to_vec();
            proof {
                assert(all.take(i as int).push(b@) =~= all.take(i + 1));
            }
            put_rep_item(&mut part, n, b.as_slice(), Ghost(all.take(i as int)));
            i = i + 1;
        }
        proof {
            lemma_seg_rep_full(n, all);
        }
        append_all(out, &part);
    }
}

proof fn lemma_tips_request_v1_rep_topics(v: Seq<Seq<char>>, x: SpecTipsRequestV1)
    ensures
        merge_fields(seg_rep(2, utf8_all(v)), x) == Some(SpecTipsRequestV1 { topics: x.topics + v, ..x }),
    decreases v.len(),
{
    if v.len() == 0 {
        lemma_rep_empty(2, utf8_all(v));
        lemma_seg_empty::<SpecTipsRequestV1>(x);
        assert(x.topics + v =~= x.topics);
    } else {
        let w = v.drop_last();
        lemma_tips_request_v1_rep_topics(w, x);
        assert(utf8_all(v).drop_last() =~= utf8_all(w));
        lemma_rep_split(2, utf8_all(v));
        lemma_merge_fields_append(seg_rep(2, utf8_all(w)), seq![lfield(2, encode_utf8(v.last()))], x);
        let y = SpecTipsRequestV1 { topics: x.topics + w, ..x };
        lemma_merge_one(lfield(2, encode_utf8(v.last())), y);
        
        assert((x.topics + w).push(v.last()) =~= x.topics + v);
    }
}

proof fn lemma_tips_request_v1_rep_manual_image_data(v: Seq<Seq<char>>, x: SpecTipsRequestV1)
    ensures
        merge_fields(seg_rep(7, utf8_all(v)), x) == Some(SpecTipsRequestV1 { manual_image_data: x.manual_image_data + v, ..x }),
    decreases v.len(),
{
    if v.len() == 0 {
        lemma_rep_empty(7, utf8_all(v));
        lemma_seg_empty::<SpecTipsRequestV1>(x);
        assert(x.manual_image_data + v =~= x.manual_image_data);
    } else {
        let w = v.drop_last();
        lemma_tips_request_v1_rep_manual_image_data(w, x);
        assert(utf8_all(v).drop_last() =~= utf8_all(w));
        lemma_rep_split(7, utf8_all(v));
        lemma_merge_fields_append(seg_rep(7, utf8_all(w)), seq![lfield(7, encode_utf8(v.last()))], x);
        let y = SpecTipsRequestV1 { manual_image_data: x.manual_image_data + w, ..x };
        lemma_merge_one(lfield(7, encode_utf8(v.last())), y);
        
        assert((x.manual_image_data + w).push(v.last()) =~= x.manual_image_data + v);
    }
}

/// Decoding the fields of a well-formed `TipsRequestV1` gives it back.
pub proof fn lemma_round_tips_request_v1(m: SpecTipsRequestV1)
    requires
        m.wf(),
    ensures
        merge_fields(m.fields(), SpecTipsRequestV1::empty()) == Some(m),
        fields_wf(m.fields()),
{
    reveal(SpecTipsRequestV1::fields);
    reveal(SpecTipsRequestV1::wf);
    let x0 = SpecTipsRequestV1::empty();
    let x1 = SpecTipsRequestV1 { count: m.count, topics: Seq::empty(), tipcard_type: 0i32, exclude_card_ids: Seq::empty(), manual_content: Seq::empty(), manual_compressed_content: Seq::empty(), manual_image_data: Seq::empty() };
    let s0 = seg_u32(1, m.count);
    assert(merge_fields(s0, x0) == Some(x1) && fields_wf(s0)) by {
        lemma_seg_u64::<SpecTipsRequestV1>(1, m.count as u64, x0);
    }
    let p0 = s0;
    let x2 = SpecTipsRequestV1 { count: m.count, topics: m.topics, tipcard_type: 0i32, exclude_card_ids: Seq::empty(), manual_content: Seq::empty(), manual_compressed_content: Seq::empty(), manual_image_data: Seq::empty() };
    let s1 = seg_rep(2, utf8_all(m.topics));
    assert(merge_fields(s1, x1) == Some(x2) && fields_wf(s1)) by {
        lemma_tips_request_v1_rep_topics(m.topics, x1);
        lemma_rep_wf(2, utf8_all(m.topics));
        assert(x1.topics + m.topics =~= m.topics);
    }
    let p1 = p0 + s1;
    lemma_chain::<SpecTipsRequestV1>(p0, s1, x0, x1, x2);
    let x3 = SpecTipsRequestV1 { count: m.count, topics: m.topics, tipcard_type: m.tipcard_type, exclude_card_ids: Seq::empty(), manual_content: Seq::empty(), manual_compressed_content: Seq::empty(), manual_image_data: Seq::empty() };
    let s2 = seg_i32(3, m.tipcard_type);
    assert(merge_fields(s2, x2) == Some(x3) && fields_wf(s2)) by {
        lemma_zero_i32(m.tipcard_type);
        lemma_seg_u64::<SpecTipsRequestV1>(3, m.tipcard_type as u64, x2);
    }
    let p2 = p1 + s2;
    lemma_chain::<SpecTipsRequestV1>(p1, s2, x0, x2, x3);
    let x4 = SpecTipsRequestV1 { count: m.count, topics: m.topics, tipcard_type: m.tipcard_type, exclude_card_ids: m.exclude_card_ids, manual_content: Seq::empty(), manual_compressed_content: Seq::empty(), manual_image_data: Seq::empty() };
    let s3 = seg_packed_i64(4, m.exclude_card_ids);
    assert(merge_fields(s3, x3) == Some(x4) && fields_wf(s3)) by {
        if m.exclude_card_ids.len() == 0 { assert(m.exclude_card_ids =~= Seq::<i64>::empty()); lemma_seg_empty::<SpecTipsRequestV1>(x3); } else { lemma_seg_len::<SpecTipsRequestV1>(4, packed_bytes(i64s_as_u64s(m.exclude_card_ids)), x3); lemma_i64s_round(m.exclude_card_ids); }
        assert(Seq::<i64>::empty() + m.exclude_card_ids =~= m.exclude_card_ids);
    }
    let p3 = p2 + s3;
    lemma_chain::<SpecTipsRequestV1>(p2, s3, x0, x3, x4);
    let x5 = SpecTipsRequestV1 { count: m.count, topics: m.topics, tipcard_type: m.tipcard_type, exclude_card_ids: m.exclude_card_ids, manual_content: m.manual_content, manual_compressed_content: Seq::empty(), manual_image_data: Seq::empty() };
    let s4 = seg_str(5, m.manual_content);
    assert(merge_fields(s4, x4) == Some(x5) && fields_wf(s4)) by {
        if m.manual_content.len() == 0 { assert(m.manual_content =~= Seq::<char>::empty()); lemma_seg_empty::<SpecTipsRequestV1>(x4); } else { lemma_seg_len::<SpecTipsRequestV1>(5, encode_utf8(m.manual_content), x4); }
    }
    let p4 = p3 + s4;
    lemma_chain::<SpecTipsRequestV1>(p3, s4, x0, x4, x5);
    let x6 = SpecTipsRequestV1 { count: m.count, topics: m.topics, tipcard_type: m.tipcard_type, exclude_card_ids: m.exclude_card_ids, manual_content: m.manual_content, manual_compressed_content: m.manual_compressed_content, manual_image_data: Seq::empty() };
    let s5 = seg_str(6, m.manual_compressed_content);
    assert(merge_fields(s5, x5) == Some(x6) && fields_wf(s5)) by {
        if m.manual_compressed_content.len() == 0 { assert(m.manual_compressed_content =~= Seq::<char>::empty()); lemma_seg_empty::<SpecTipsRequestV1>(x5); } else { lemma_seg_len::<SpecTipsRequestV1>(6, encode_utf8(m.manual_compressed_content), x5); }
    }
    let p5 = p4 + s5;
    lemma_chain::<SpecTipsRequestV1>(p4, s5, x0, x5, x6);
    let x7 = SpecTipsRequestV1 { count: m.count, topics: m.topics, tipcard_type: m.tipcard_type, exclude_card_ids: m.exclude_card_ids, manual_content: m.manual_content, manual_compressed_content: m.manual_compressed_content, manual_image_data: m.manual_image_data };
    let s6 = seg_rep(7, utf8_all(m.manual_image_data));
    assert(merge_fields(s6, x6) == Some(x7) && fields_wf(s6)) by {
        lemma_tips_request_v1_rep_manual_image_data(m.manual_image_data, x6);
        lemma_rep_wf(7, utf8_all(m.manual_image_data));
        assert(x6.manual_image_data + m.manual_image_data =~= m.manual_image_data);
    }
    let p6 = p5 + s6;
    lemma_chain::<SpecTipsRequestV1>(p5, s6, x0, x6, x7);
    assert(x7 == m);
}

/// A `TipsRequestV1` whose encoding has a length that fits a varint is well-formed.
pub proof fn lemma_wf_tips_request_v1(m: SpecTipsRequestV1)
    requires
        fits(m.encoded()),
    ensures
        m.wf(),
{
    reveal(SpecTipsRequestV1::fields);
    reveal(SpecTipsRequestV1::wf);
    let s0 = seg_u32(1, m.count);
    let p0 = s0;
    let s1 = seg_rep(2, utf8_all(m.topics));
    let p1 = p0 + s1;
    let s2 = seg_i32(3, m.tipcard_type);
    let p2 = p1 + s2;
    let s3 = seg_packed_i64(4, m.exclude_card_ids);
    let p3 = p2 + s3;
    let s4 = seg_str(5, m.manual_content);
    let p4 = p3 + s4;
    let s5 = seg_str(6, m.manual_compressed_content);
    let p5 = p4 + s5;
    let s6 = seg_rep(7, utf8_all(m.manual_image_data));
    let p6 = p5 + s6;
    lemma_fits_parts(p5, s6);
    lemma_fits_parts(p4, s5);
    lemma_fits_parts(p3, s4);
    lemma_fits_parts(p2, s3);
    lemma_fits_parts(p1, s2);
    lemma_fits_parts(p0, s1);
    lemma_fits_seg_rep(2, utf8_all(m.topics));
    lemma_fits_seg_packed(4, m.exclude_card_ids);
    lemma_fits_seg_str(5, m.manual_content);
    lemma_fits_seg_str(6, m.manual_compressed_content);
    lemma_fits_seg_rep(7, utf8_all(m.manual_image_data));
}

/// Reviews a card and asks for the next one.
#[derive(Clone, Debug, PartialEq, Default)]
pub struct ReviewAndAdvanceRequest {
    pub card_id: i64,
    pub grade: u32,
    pub action: i32,
}

/// The value of a [`ReviewAndAdvanceRequest`].
pub struct SpecReviewAndAdvanceRequest {
    pub card_id: i64,
    pub grade: u32,
    pub action: i32,
}

impl View for ReviewAndAdvanceRequest {
    type V = SpecReviewAndAdvanceRequest;

    open spec fn view(&self) -> SpecReviewAndAdvanceRequest {
        SpecReviewAndAdvanceRequest {
            card_id: self.card_id,
            grade: self.grade,
            action: self.action,
        }
    }
}

impl SpecReviewAndAdvanceRequest {
    /// Every field at its default.
    pub open spec fn empty() -> SpecReviewAndAdvanceRequest {
        SpecReviewAndAdvanceRequest {
            card_id: 0i64,
            grade: 0u32,
            action: 0i32,
        }
    }

    /// The fields written for this value, in field-number order.
    #[verifier::opaque]
    pub open spec fn fields(self) -> Seq<SpecField> {
        seg_i64(1, self.card_id)
            + seg_u32(2, self.grade)
            + seg_i32(3, self.action)
    }

    pub open spec fn encoded(self) -> Seq<u8> {
        encode_fields(self.fields())
    }

    pub open spec fn encode_all(v: Seq<SpecReviewAndAdvanceRequest>) -> Seq<Seq<u8>> {
        Seq::new(v.len(), |i: int| v[i].encoded())
    }

    /// Every length-delimited payload fits a varint length.
    #[verifier::opaque]
    pub open spec fn wf(self) -> bool {
        true
    }
}

impl Message for SpecReviewAndAdvanceRequest {
    open spec fn merge(self, f: SpecField) -> Option<SpecReviewAndAdvanceRequest> {
        if f.number == 1 {
            match as_varint(f.value) { Some(v) => Some(SpecReviewAndAdvanceRequest { card_id: v as i64, ..self }), None => None }
        } else if f.number == 2 {
            match as_varint(f.value) { Some(v) => Some(SpecReviewAndAdvanceRequest { grade: v as u32, ..self }), None => None }
        } else if f.number == 3 {
            match as_varint(f.value) { Some(v) => Some(SpecReviewAndAdvanceRequest { action: v as i32, ..self }), None => None }
        } else {
            Some(self)
        }
    }
}

impl WireMessage for ReviewAndAdvanceRequest {
    type Spec = SpecReviewAndAdvanceRequest;

    open spec fn spec_of(&self) -> SpecReviewAndAdvanceRequest {
        self@
    }

    open spec fn spec_default() -> SpecReviewAndAdvanceRequest {
        SpecReviewAndAdvanceRequest::empty()
    }

    fn default_value() -> (r: Self) {
        let r = ReviewAndAdvanceRequest {
            card_id: 0,
            grade: 0,
            action: 0,
        };
        r
    }

    fn merge_raw(&mut self, buf: &[u8], f: &RawField) -> (ok: bool) {
        if f.number == 1 {
            match raw_varint(f) { Some(v) => { self.card_id = v as i64; true }, None => false }
        } else if f.number == 2 {
            match raw_varint(f) { Some(v) => { self.grade = v as u32; true }, None => false }
        } else if f.number == 3 {
            match raw_varint(f) { Some(v) => { self.action = v as i32; true }, None => false }
        } else {
            true
        }
    }
}

impl ReviewAndAdvanceRequest {
    /// Appends the protobuf encoding of this message.
    pub fn encode_to(&self, out: &mut Vec<u8>)
        ensures
            final(out)@ == old(out)@ + self@.encoded(),
    {
        let ghost start = out@;
        proof {
            reveal(SpecReviewAndAdvanceRequest::fields);
        }
        let ghost s0 = seg_i64(1, self@.card_id);
        put_i64(out, 1, self.card_id);
        let ghost p0 = s0;
        assert(out@ =~= start + encode_fields(p0));
        let ghost s1 = seg_u32(2, self@.grade);
        put_u32(out, 2, self.grade);
        let ghost p1 = p0 + s1;
        proof {
            lemma_encode_fields_append(p0, s1);
        }
        assert(out@ =~= start + encode_fields(p1));
        let ghost s2 = seg_i32(3, self@.action);
        put_i32(out, 3, self.action);
        let ghost p2 = p1 + s2;
        proof {
            lemma_encode_fields_append(p1, s2);
        }
        assert(out@ =~= start + encode_fields(p2));
        assert(out@ =~= start + self@.encoded());
    }

    /// The protobuf encoding of this message.
    pub fn encode_to_vec(&self) -> (r: Vec<u8>)
        ensures
            r@ == self@.encoded(),
    {
        let mut out: Vec<u8> = Vec::new();
        self.encode_to(&mut out);
        assert(out@ =~= self@.encoded());
        out
    }

    /// Decodes a message; `None` where the bytes are not a valid encoding.
    pub fn decode(buf: &[u8]) -> (r: Option<ReviewAndAdvanceRequest>)
        ensures
            match decode_into(buf@, SpecReviewAndAdvanceRequest::empty()) {
                Some(m) => r matches Some(v) && v@ == m,
                None => r is None,
            },
    {
        decode_message::<ReviewAndAdvanceRequest>(buf)
    }

    /// Appends one length-delimited field `n` per element of `v`.
    pub fn put_repeated(out: &mut Vec<u8>, n: u32, v: &Vec<ReviewAndAdvanceRequest>)
        requires
            1 <= n <= MAX_FIELD_NUMBER,
        ensures
            final(out)@ == old(out)@ + encode_fields(seg_rep(n, SpecReviewAndAdvanceRequest::encode_all(Seq::new(v@.len(), |i: int| v@[i]@)))),
    {
        let ghost all = SpecReviewAndAdvanceRequest::encode_all(Seq::new(v@.len(), |i: int| v@[i]@));
        let mut part: Vec<u8> = Vec::new();
        let mut i: usize = 0;
        proof {
            lemma_seg_rep_full(n, all);
            lemma_encode_empty();
        }
        while i < v.len()
            invariant
                1 <= n <= MAX_FIELD_NUMBER,
                i <= v@.len(),
                all == SpecReviewAndAdvanceRequest::encode_all(Seq::new(v@.len(), |i: int| v@[i]@)),
                part@ == encode_fields(seg_rep(n, all.take(i as int))),
            decreases v@.len() - i,
        {
            let b = v[i].encode_to_vec();
            proof {
                assert(all.take(i as int).push(b@) =~= all.take(i + 1));
            }
            put_rep_item(&mut part, n, b.as_slice(), Ghost(all.take(i as int)));
            i = i + 1;
        }
        proof {
            lemma_seg_rep_full(n, all);
        }
        append_all(out, &part);
    }
}

/// Decoding the fields of a well-formed `ReviewAndAdvanceRequest` gives it back.
pub proof fn lemma_round_review_and_advance_request(m: SpecReviewAndAdvanceRequest)
    requires
        m.wf(),
    ensures
        merge_fields(m.fields(), SpecReviewAndAdvanceRequest::empty()) == Some(m),
        fields_wf(m.fields()),
{
    reveal(SpecReviewAndAdvanceRequest::fields);
    reveal(SpecReviewAndAdvanceRequest::wf);
    let x0 = SpecReviewAndAdvanceRequest::empty();
    let x1 = SpecReviewAndAdvanceRequest { card_id: m.card_id, grade: 0u32, action: 0i32 };
    let s0 = seg_i64(1, m.card_id);
    assert(merge_fields(s0, x0) == Some(x1) && fields_wf(s0)) by {
        lemma_zero_i64(m.card_id);
        lemma_seg_u64::<SpecReviewAndAdvanceRequest>(1, m.card_id as u64, x0);
    }
    let p0 = s0;
    let x2 = SpecReviewAndAdvanceRequest { card_id: m.card_id, grade: m.grade, action: 0i32 };
    let s1 = seg_u32(2, m.grade);
    assert(merge_fields(s1, x1) == Some(x2) && fields_wf(s1)) by {
        lemma_seg_u64::<SpecReviewAndAdvanceRequest>(2, m.grade as u64, x1);
    }
    let p1 = p0 + s1;
    lemma_chain::<SpecReviewAndAdvanceRequest>(p0, s1, x0, x1, x2);
    let x3 = SpecReviewAndAdvanceRequest { card_id: m.card_id, grade: m.grade, action: m.action };
    let s2 = seg_i32(3, m.action);
    assert(merge_fields(s2, x2) == Some(x3) && fields_wf(s2)) by {
        lemma_zero_i32(m.action);
        lemma_seg_u64::<SpecReviewAndAdvanceRequest>(3, m.action as u64, x2);
    }
    let p2 = p1 + s2;
    lemma_chain::<SpecReviewAndAdvanceRequest>(p1, s2, x0, x2, x3);
    assert(x3 == m);
}

/// A `ReviewAndAdvanceRequest` whose encoding has a length that fits a varint is well-formed.
pub proof fn lemma_wf_review_and_advance_request(m: SpecReviewAndAdvanceRequest)
    requires
        fits(m.encoded()),
    ensures
        m.wf(),
{
    reveal(SpecReviewAndAdvanceRequest::fields);
    reveal(SpecReviewAndAdvanceRequest::wf);
}

/// Reviews a card.
#[derive(Clone, Debug, PartialEq, Default)]
pub struct ReviewRequestV1 {
    pub card_id: i64,
    pub grade: u32,
    pub action: i32,
}

/// The value of a [`ReviewRequestV1`].
pub struct SpecReviewRequestV1 {
    pub card_id: i64,
    pub grade: u32,
    pub action: i32,
}

impl View for ReviewRequestV1 {
    type V = SpecReviewRequestV1;

    open spec fn view(&self) -> SpecReviewRequestV1 {
        SpecReviewRequestV1 {
            card_id: self.card_id,
            grade: self.grade,
            action: self.action,
        }
    }
}

impl SpecReviewRequestV1 {
    /// Every field at its default.
    pub open spec fn empty() -> SpecReviewRequestV1 {
        SpecReviewRequestV1 {
            card_id: 0i64,
            grade: 0u32,
            action: 0i32,
        }
    }

    /// The fields written for this value, in field-number order.
    #[verifier::opaque]
    pub open spec fn fields(self) -> Seq<SpecField> {
        seg_i64(1, self.card_id)
            + seg_u32(2, self.grade)
            + seg_i32(3, self.action)
    }

    pub open spec fn encoded(self) -> Seq<u8> {
        encode_fields(self.fields())
    }

    pub open spec fn encode_all(v: Seq<SpecReviewRequestV1>) -> Seq<Seq<u8>> {
        Seq::new(v.len(), |i: int| v[i].encoded())
    }

    /// Every length-delimited payload fits a varint length.
    #[verifier::opaque]
    pub open spec fn wf(self) -> bool {
        true
    }
}

impl Message for SpecReviewRequestV1 {
    open spec fn merge(self, f: SpecField) -> Option<SpecReviewRequestV1> {
        if f.number == 1 {
            match as_varint(f.value) { Some(v) => Some(SpecReviewRequestV1 { card_id: v as i64, ..self }), None => None }
        } else if f.number == 2 {
            match as_varint(f.value) { Some(v) => Some(SpecReviewRequestV1 { grade: v as u32, ..self }), None => None }
        } else if f.number == 3 {
            match as_varint(f.value) { Some(v) => Some(SpecReviewRequestV1 { action: v as i32, ..self }), None => None }
        } else {
            Some(self)
        }
    }
}

impl WireMessage for ReviewRequestV1 {
    type Spec = SpecReviewRequestV1;

    open spec fn spec_of(&self) -> SpecReviewRequestV1 {
        self@
    }

    open spec fn spec_default() -> SpecReviewRequestV1 {
        SpecReviewRequestV1::empty()
    }

    fn default_value() -> (r: Self) {
        let r = ReviewRequestV1 {
            card_id: 0,
            grade: 0,
            action: 0,
        };
        r
    }

    fn merge_raw(&mut self, buf: &[u8], f: &RawField) -> (ok: bool) {
        if f.number == 1 {
            match raw_varint(f) { Some(v) => { self.card_id = v as i64; true }, None => false }
        } else if f.number == 2 {
            match raw_varint(f) { Some(v) => { self.grade = v as u32; true }, None => false }
        } else if f.number == 3 {
            match raw_varint(f) { Some(v) => { self.action = v as i32; true }, None => false }
        } else {
            true
        }
    }
}

impl ReviewRequestV1 {
    /// Appends the protobuf encoding of this message.
    pub fn encode_to(&self, out: &mut Vec<u8>)
        ensures
            final(out)@ == old(out)@ + self@.encoded(),
    {
        let ghost start = out@;
        proof {
            reveal(SpecReviewRequestV1::fields);
        }
        let ghost s0 = seg_i64(1, self@.card_id);
        put_i64(out, 1, self.card_id);
        let ghost p0 = s0;
        assert(out@ =~= start + encode_fields(p0));
        let ghost s1 = seg_u32(2, self@.grade);
        put_u32(out, 2, self.grade);
        let ghost p1 = p0 + s1;
        proof {
            lemma_encode_fields_append(p0, s1);
        }
        assert(out@ =~= start + encode_fields(p1));
        let ghost s2 = seg_i32(3, self@.action);
        put_i32(out, 3, self.action);
        let ghost p2 = p1 + s2;
        proof {
            lemma_encode_fields_append(p1, s2);
        }
        assert(out@ =~= start + encode_fields(p2));
        assert(out@ =~= start + self@.encoded());
    }

    /// The protobuf encoding of this message.
    pub fn encode_to_vec(&self) -> (r: Vec<u8>)
        ensures
            r@ == self@.encoded(),
    {
        let mut out: Vec<u8> = Vec::new();
        self.encode_to(&mut out);
        assert(out@ =~= self@.encoded());
        out
    }

    /// Decodes a message; `None` where the bytes are not a valid encoding.
    pub fn decode(buf: &[u8]) -> (r: Option<ReviewRequestV1>)
        ensures
            match decode_into(buf@, SpecReviewRequestV1::empty()) {
                Some(m) => r matches Some(v) && v@ == m,
                None => r is None,
            },
    {
        decode_message::<ReviewRequestV1>(buf)
    }

    /// Appends one length-delimited field `n` per element of `v`.
    pub fn put_repeated(out: &mut Vec<u8>, n: u32, v: &Vec<ReviewRequestV1>)
        requires
            1 <= n <= MAX_FIELD_NUMBER,
        ensures
            final(out)@ == old(out)@ + encode_fields(seg_rep(n, SpecReviewRequestV1::encode_all(Seq::new(v@.len(), |i: int| v@[i]@)))),
    {
        let ghost all = SpecReviewRequestV1::encode_all(Seq::new(v@.len(), |i: int| v@[i]@));
        let mut part: Vec<u8> = Vec::new();
        let mut i: usize = 0;
        proof {
            lemma_seg_rep_full(n, all);
            lemma_encode_empty();
        }
        while i < v.len()
            invariant
                1 <= n <= MAX_FIELD_NUMBER,
                i <= v@.len(),
                all == SpecReviewRequestV1::encode_all(Seq::new(v@.len(), |i: int| v@[i]@)),
                part@ == encode_fields(seg_rep(n, all.take(i as int))),
            decreases v@.len() - i,
        {
            let b = v[i].encode_to_vec();
            proof {
                assert(all.take(i as int).push(b@) =~= all.take(i + 1));
            }
            put_rep_item(&mut part, n, b.as_slice(), Ghost(all.take(i as int)));
            i = i + 1;
        }
        proof {
            lemma_seg_rep_full(n, all);
        }
        append_all(out, &part);
    }
}

/// Decoding the fields of a well-formed `ReviewRequestV1` gives it back.
pub proof fn lemma_round_review_request_v1(m: SpecReviewRequestV1)
    requires
        m.wf(),
    ensures
        merge_fields(m.fields(), SpecReviewRequestV1::empty()) == Some(m),
        fields_wf(m.fields()),
{
    reveal(SpecReviewRequestV1::fields);
    reveal(SpecReviewRequestV1::wf);
    let x0 = SpecReviewRequestV1::empty();
    let x1 = SpecReviewRequestV1 { card_id: m.card_id, grade: 0u32, action: 0i32 };
    let s0 = seg_i64(1, m.card_id);
    assert(merge_fields(s0, x0) == Some(x1) && fields_wf(s0)) by {
        lemma_zero_i64(m.card_id);
        lemma_seg_u64::<SpecReviewRequestV1>(1, m.card_id as u64, x0);
    }
    let p0 = s0;
    let x2 = SpecReviewRequestV1 { card_id: m.card_id, grade: m.grade, action: 0i32 };
    let s1 = seg_u32(2, m.grade);
    assert(merge_fields(s1, x1) == Some(x2) && fields_wf(s1)) by {
        lemma_seg_u64::<SpecReviewRequestV1>(2, m.grade as u64, x1);
    }
    let p1 = p0 + s1;
    lemma_chain::<SpecReviewRequestV1>(p0, s1, x0, x1, x2);
    let x3 = SpecReviewRequestV1 { card_id: m.card_id, grade: m.grade, action: m.action };
    let s2 = seg_i32(3, m.action);
    assert(merge_fields(s2, x2) == Some(x3) && fields_wf(s2)) by {
        lemma_zero_i32(m.action);
        lemma_seg_u64::<SpecReviewRequestV1>(3, m.action as u64, x2);
    }
    let p2 = p1 + s2;
    lemma_chain::<SpecReviewRequestV1>(p1, s2, x0, x2, x3);
    assert(x3 == m);
}

/// A `ReviewRequestV1` whose encoding has a length that fits a varint is well-formed.
pub proof fn lemma_wf_review_request_v1(m: SpecReviewRequestV1)
    requires
        fits(m.encoded()),
    ensures
        m.wf(),
{
    reveal(SpecReviewRequestV1::fields);
    reveal(SpecReviewRequestV1::wf);
}

/// Continues the daily review for some topics.
#[derive(Clone, Debug, PartialEq, Default)]
pub struct ContinueDailyReviewRequest {
    pub topics: Vec<String>,
    pub tipcard_type: String,
}

/// The value of a [`ContinueDailyReviewRequest`].
pub struct SpecContinueDailyReviewRequest {
    pub topics: Seq<Seq<char>>,
    pub tipcard_type: Seq<char>,
}

impl View for ContinueDailyReviewRequest {
    type V = SpecContinueDailyReviewRequest;

    open spec fn view(&self) -> SpecContinueDailyReviewRequest {
        SpecContinueDailyReviewRequest {
            topics: strings_view(self.topics@),
            tipcard_type: self.tipcard_type@,
        }
    }
}

impl SpecContinueDailyReviewRequest {
    /// Every field at its default.
    pub open spec fn empty() -> SpecContinueDailyReviewRequest {
        SpecContinueDailyReviewRequest {
            topics: Seq::empty(),
            tipcard_type: Seq::empty(),
        }
    }

    /// The fields written for this value, in field-number order.
    #[verifier::opaque]
    pub open spec fn fields(self) -> Seq<SpecField> {
        seg_rep(1, utf8_all(self.topics))
            + seg_str(2, self.tipcard_type)
    }

    pub open spec fn encoded(self) -> Seq<u8> {
        encode_fields(self.fields())
    }

    pub open spec fn encode_all(v: Seq<SpecContinueDailyReviewRequest>) -> Seq<Seq<u8>> {
        Seq::new(v.len(), |i: int| v[i].encoded())
    }

    /// Every length-delimited payload fits a varint length.
    #[verifier::opaque]
    pub open spec fn wf(self) -> bool {
        (forall|i: int| 0 <= i < self.topics.len() ==> fits(#[trigger] utf8_all(self.topics)[i]))
        && fits(encode_utf8(self.tipcard_type))
    }
}

impl Message for SpecContinueDailyReviewRequest {
    open spec fn merge(self, f: SpecField) -> Option<SpecContinueDailyReviewRequest> {
        if f.number == 1 {
            match as_string(f.value) { Some(s) => Some(SpecContinueDailyReviewRequest { topics: self.topics.push(s), ..self }), None => None }
        } else if f.number == 2 {
            match as_string(f.value) { Some(s) => Some(SpecContinueDailyReviewRequest { tipcard_type: s, ..self }), None => None }
        } else {
            Some(self)
        }
    }
}

impl WireMessage for ContinueDailyReviewRequest {
    type Spec = SpecContinueDailyReviewRequest;

    open spec fn spec_of(&self) -> SpecContinueDailyReviewRequest {
        self@
    }

    open spec fn spec_default() -> SpecContinueDailyReviewRequest {
        SpecContinueDailyReviewRequest::empty()
    }

    fn default_value() -> (r: Self) {
        let r = ContinueDailyReviewRequest {
            topics: Vec::new(),
            tipcard_type: String::new(),
        };
        assert(r@.topics =~= Seq::empty());
        r
    }

    fn merge_raw(&mut self, buf: &[u8], f: &RawField) -> (ok: bool) {
        if f.number == 1 {
            match raw_string(buf, f) { Some(s) => { self.topics.push(s); proof { assert(self@.topics =~= old(self)@.topics.push(self.topics@.last()@)); } true }, None => false }
        } else if f.number == 2 {
            match raw_string(buf, f) { Some(s) => { self.tipcard_type = s; true }, None => false }
        } else {
            true
        }
    }
}

impl ContinueDailyReviewRequest {
    /// Appends the protobuf encoding of this message.
    pub fn encode_to(&self, out: &mut Vec<u8>)
        ensures
            final(out)@ == old(out)@ + self@.encoded(),
    {
        let ghost start = out@;
        proof {
            reveal(SpecContinueDailyReviewRequest::fields);
        }
        let ghost s0 = seg_rep(1, utf8_all(self@.topics));
        put_rep_str(out, 1, &self.topics);
        let ghost p0 = s0;
        assert(out@ =~= start + encode_fields(p0));
        let ghost s1 = seg_str(2, self@.tipcard_type);
        put_str(out, 2, self.tipcard_type.as_str());
        let ghost p1 = p0 + s1;
        proof {
            lemma_encode_fields_append(p0, s1);
        }
        assert(out@ =~= start + encode_fields(p1));
        assert(out@ =~= start + self@.encoded());
    }

    /// The protobuf encoding of this message.
    pub fn encode_to_vec(&self) -> (r: Vec<u8>)
        ensures
            r@ == self@.encoded(),
    {
        let mut out: Vec<u8> = Vec::new();
        self.encode_to(&mut out);
        assert(out@ =~= self@.encoded());
        out
    }

    /// Decodes a message; `None` where the bytes are not a valid encoding.
    pub fn decode(buf: &[u8]) -> (r: Option<ContinueDailyReviewRequest>)
        ensures
            match decode_into(buf@, SpecContinueDailyReviewRequest::empty()) {
                Some(m) => r matches Some(v) && v@ == m,
                None => r is None,
            },
    {
        decode_message::<ContinueDailyReviewRequest>(buf)
    }

    /// Appends one length-delimited field `n` per element of `v`.
    pub fn put_repeated(out: &mut Vec<u8>, n: u32, v: &Vec<ContinueDailyReviewRequest>)
        requires
            1 <= n <= MAX_FIELD_NUMBER,
        ensures
            final(out)@ == old(out)@ + encode_fields(seg_rep(n, SpecContinueDailyReviewRequest::encode_all(Seq::new(v@.len(), |i: int| v@[i]@)))),
    {
        let ghost all = SpecContinueDailyReviewRequest::encode_all(Seq::new(v@.len(), |i: int| v@[i]@));
        let mut part: Vec<u8> = Vec::new();
        let mut i: usize = 0;
        proof {
            lemma_seg_rep_full(n, all);
            lemma_encode_empty();
        }
        while i < v.len()
            invariant
                1 <= n <= MAX_FIELD_NUMBER,
                i <= v@.len(),
                all == SpecContinueDailyReviewRequest::encode_all(Seq::new(v@.len(), |i: int| v@[i]@)),
                part@ == encode_fields(seg_rep(n, all.take(i as int))),
            decreases v@.len() - i,
        {
            let b = v[i].encode_to_vec();
            proof {
                assert(all.take(i as int).push(b@) =~= all.take(i + 1));
            }
            put_rep_item(&mut part, n, b.as_slice(), Ghost(all.take(i as int)));
            i = i + 1;
        }
        proof {
            lemma_seg_rep_full(n, all);
        }
        append_all(out, &part);
    }
}

proof fn lemma_continue_daily_review_request_rep_topics(v: Seq<Seq<char>>, x: SpecContinueDailyReviewRequest)
    ensures
        merge_fields(seg_rep(1, utf8_all(v)), x) == Some(SpecContinueDailyReviewRequest { topics: x.topics + v, ..x }),
    decreases v.len(),
{
    if v.len() == 0 {
        lemma_rep_empty(1, utf8_all(v));
        lemma_seg_empty::<SpecContinueDailyReviewRequest>(x);
        assert(x.topics + v =~= x.topics);
    } else {
        let w = v.drop_last();
        lemma_continue_daily_review_request_rep_topics(w, x);
        assert(utf8_all(v).drop_last() =~= utf8_all(w));
        lemma_rep_split(1, utf8_all(v));
        lemma_merge_fields_append(seg_rep(1, utf8_all(w)), seq![lfield(1, encode_utf8(v.last()))], x);
        let y = SpecContinueDailyReviewRequest { topics: x.topics + w, ..x };
        lemma_merge_one(lfield(1, encode_utf8(v.last())), y);
        
        assert((x.topics + w).push(v.last()) =~= x.topics + v);
    }
}

/// Decoding the fields of a well-formed `ContinueDailyReviewRequest` gives it back.
pub proof fn lemma_round_continue_daily_review_request(m: SpecContinueDailyReviewRequest)
    requires
        m.wf(),
    ensures
        merge_fields(m.fields(), SpecContinueDailyReviewRequest::empty()) == Some(m),
        fields_wf(m.fields()),
{
    reveal(SpecContinueDailyReviewRequest::fields);
    reveal(SpecContinueDailyReviewRequest::wf);
    let x0 = SpecContinueDailyReviewRequest::empty();
    let x1 = SpecContinueDailyReviewRequest { topics: m.topics, tipcard_type: Seq::empty() };
    let s0 = seg_rep(1, utf8_all(m.topics));
    assert(merge_fields(s0, x0) == Some(x1) && fields_wf(s0)) by {
        lemma_continue_daily_review_request_rep_topics(m.topics, x0);
        lemma_rep_wf(1, utf8_all(m.topics));
        assert(x0.topics + m.topics =~= m.topics);
    }
    let p0 = s0;
    let x2 = SpecContinueDailyReviewRequest { topics: m.topics, tipcard_type: m.tipcard_type };
    let s1 = seg_str(2, m.tipcard_type);
    assert(merge_fields(s1, x1) == Some(x2) && fields_wf(s1)) by {
        if m.tipcard_type.len() == 0 { assert(m.tipcard_type =~= Seq::<char>::empty()); lemma_seg_empty::<SpecContinueDailyReviewRequest>(x1); } else { lemma_seg_len::<SpecContinueDailyReviewRequest>(2, encode_utf8(m.tipcard_type), x1); }
    }
    let p1 = p0 + s1;
    lemma_chain::<SpecContinueDailyReviewRequest>(p0, s1, x0, x1, x2);
    assert(x2 == m);
}

/// A `ContinueDailyReviewRequest` whose encoding has a length that fits a varint is well-formed.
pub proof fn lemma_wf_continue_daily_review_request(m: SpecContinueDailyReviewRequest)
    requires
        fits(m.encoded()),
    ensures
        m.wf(),
{
    reveal(SpecContinueDailyReviewRequest::fields);
    reveal(SpecContinueDailyReviewRequest::wf);
    let s0 = seg_rep(1, utf8_all(m.topics));
    let p0 = s0;
    let s1 = seg_str(2, m.tipcard_type);
    let p1 = p0 + s1;
    lemma_fits_parts(p0, s1);
    lemma_fits_seg_rep(1, utf8_all(m.topics));
    lemma_fits_seg_str(2, m.tipcard_type);
}

/// Forces the daily refresh for some topics.
#[derive(Clone, Debug, PartialEq, Default)]
pub struct ForceDailyRefreshRequest {
    pub topics: String,
    pub tipcard_type: String,
}

/// The value of a [`ForceDailyRefreshRequest`].
pub struct SpecForceDailyRefreshRequest {
    pub topics: Seq<char>,
    pub tipcard_type: Seq<char>,
}

impl View for ForceDailyRefreshRequest {
    type V = SpecForceDailyRefreshRequest;

    open spec fn view(&self) -> SpecForceDailyRefreshRequest {
        SpecForceDailyRefreshRequest {
            topics: self.topics@,
            tipcard_type: self.tipcard_type@,
        }
    }
}

impl SpecForceDailyRefreshRequest {
    /// Every field at its default.
    pub open spec fn empty() -> SpecForceDailyRefreshRequest {
        SpecForceDailyRefreshRequest {
            topics: Seq::empty(),
            tipcard_type: Seq::empty(),
        }
    }

    /// The fields written for this value, in field-number order.
    #[verifier::opaque]
    pub open spec fn fields(self) -> Seq<SpecField> {
        seg_str(1, self.topics)
            + seg_str(2, self.tipcard_type)
    }

    pub open spec fn encoded(self) -> Seq<u8> {
        encode_fields(self.fields())
    }

    pub open spec fn encode_all(v: Seq<SpecForceDailyRefreshRequest>) -> Seq<Seq<u8>> {
        Seq::new(v.len(), |i: int| v[i].encoded())
    }

    /// Every length-delimited payload fits a varint length.
    #[verifier::opaque]
    pub open spec fn wf(self) -> bool {
        fits(encode_utf8(self.topics))
        && fits(encode_utf8(self.tipcard_type))
    }
}

impl Message for SpecForceDailyRefreshRequest {
    open spec fn merge(self, f: SpecField) -> Option<SpecForceDailyRefreshRequest> {
        if f.number == 1 {
            match as_string(f.value) { Some(s) => Some(SpecForceDailyRefreshRequest { topics: s, ..self }), None => None }
        } else if f.number == 2 {
            match as_string(f.value) { Some(s) => Some(SpecForceDailyRefreshRequest { tipcard_type: s, ..self }), None => None }
        } else {
            Some(self)
        }
    }
}

impl WireMessage for ForceDailyRefreshRequest {
    type Spec = SpecForceDailyRefreshRequest;

    open spec fn spec_of(&self) -> SpecForceDailyRefreshRequest {
        self@
    }

    open spec fn spec_default() -> SpecForceDailyRefreshRequest {
        SpecForceDailyRefreshRequest::empty()
    }

    fn default_value() -> (r: Self) {
        let r = ForceDailyRefreshRequest {
            topics: String::new(),
            tipcard_type: String::new(),
        };
        r
    }

    fn merge_raw(&mut self, buf: &[u8], f: &RawField) -> (ok: bool) {
        if f.number == 1 {
            match raw_string(buf, f) { Some(s) => { self.topics = s; true }, None => false }
        } else if f.number == 2 {
            match raw_string(buf, f) { Some(s) => { self.tipcard_type = s; true }, None => false }
        } else {
            true
        }
    }
}

impl ForceDailyRefreshRequest {
    /// Appends the protobuf encoding of this message.
    pub fn encode_to(&self, out: &mut Vec<u8>)
        ensures
            final(out)@ == old(out)@ + self@.encoded(),
    {
        let ghost start = out@;
        proof {
            reveal(SpecForceDailyRefreshRequest::fields);
        }
        let ghost s0 = seg_str(1, self@.topics);
        put_str(out, 1, self.topics.as_str());
        let ghost p0 = s0;
        assert(out@ =~= start + encode_fields(p0));
        let ghost s1 = seg_str(2, self@.tipcard_type);
        put_str(out, 2, self.tipcard_type.as_str());
        let ghost p1 = p0 + s1;
        proof {
            lemma_encode_fields_append(p0, s1);
        }
        assert(out@ =~= start + encode_fields(p1));
        assert(out@ =~= start + self@.encoded());
    }

    /// The protobuf encoding of this message.
    pub fn encode_to_vec(&self) -> (r: Vec<u8>)
        ensures
            r@ == self@.encoded(),
    {
        let mut out: Vec<u8> = Vec::new();
        self.encode_to(&mut out);
        assert(out@ =~= self@.encoded());
        out
    }

    /// Decodes a message; `None` where the bytes are not a valid encoding.
    pub fn decode(buf: &[u8]) -> (r: Option<ForceDailyRefreshRequest>)
        ensures
            match decode_into(buf@, SpecForceDailyRefreshRequest::empty()) {
                Some(m) => r matches Some(v) && v@ == m,
                None => r is None,
            },
    {
        decode_message::<ForceDailyRefreshRequest>(buf)
    }

    /// Appends one length-delimited field `n` per element of `v`.
    pub fn put_repeated(out: &mut Vec<u8>, n: u32, v: &Vec<ForceDailyRefreshRequest>)
        requires
            1 <= n <= MAX_FIELD_NUMBER,
        ensures
            final(out)@ == old(out)@ + encode_fields(seg_rep(n, SpecForceDailyRefreshRequest::encode_all(Seq::new(v@.len(), |i: int| v@[i]@)))),
    {
        let ghost all = SpecForceDailyRefreshRequest::encode_all(Seq::new(v@.len(), |i: int| v@[i]@));
        let mut part: Vec<u8> = Vec::new();
        let mut i: usize = 0;
        proof {
            lemma_seg_rep_full(n, all);
            lemma_encode_empty();
        }
        while i < v.len()
            invariant
                1 <= n <= MAX_FIELD_NUMBER,
                i <= v@.len(),
                all == SpecForceDailyRefreshRequest::encode_all(Seq::new(v@.len(), |i: int| v@[i]@)),
                part@ == encode_fields(seg_rep(n, all.take(i as int))),
            decreases v@.len() - i,
        {
            let b = v[i].encode_to_vec();
            proof {
                assert(all.take(i as int).push(b@) =~= all.take(i + 1));
            }
            put_rep_item(&mut part, n, b.as_slice(), Ghost(all.take(i as int)));
            i = i + 1;
        }
        proof {
            lemma_seg_rep_full(n, all);
        }
        append_all(out, &part);
    }
}

/// Decoding the fields of a well-formed `ForceDailyRefreshRequest` gives it back.
pub proof fn lemma_round_force_daily_refresh_request(m: SpecForceDailyRefreshRequest)
    requires
        m.wf(),
    ensures
        merge_fields(m.fields(), SpecForceDailyRefreshRequest::empty()) == Some(m),
        fields_wf(m.fields()),
{
    reveal(SpecForceDailyRefreshRequest::fields);
    reveal(SpecForceDailyRefreshRequest::wf);
    let x0 = SpecForceDailyRefreshRequest::empty();
    let x1 = SpecForceDailyRefreshRequest { topics: m.topics, tipcard_type: Seq::empty() };
    let s0 = seg_str(1, m.topics);
    assert(merge_fields(s0, x0) == Some(x1) && fields_wf(s0)) by {
        if m.topics.len() == 0 { assert(m.topics =~= Seq::<char>::empty()); lemma_seg_empty::<SpecForceDailyRefreshRequest>(x0); } else { lemma_seg_len::<SpecForceDailyRefreshRequest>(1, encode_utf8(m.topics), x0); }
    }
    let p0 = s0;
    let x2 = SpecForceDailyRefreshRequest { topics: m.topics, tipcard_type: m.tipcard_type };
    let s1 = seg_str(2, m.tipcard_type);
    assert(merge_fields(s1, x1) == Some(x2) && fields_wf(s1)) by {
        if m.tipcard_type.len() == 0 { assert(m.tipcard_type =~= Seq::<char>::empty()); lemma_seg_empty::<SpecForceDailyRefreshRequest>(x1); } else { lemma_seg_len::<SpecForceDailyRefreshRequest>(2, encode_utf8(m.tipcard_type), x1); }
    }
    let p1 = p0 + s1;
    lemma_chain::<SpecForceDailyRefreshRequest>(p0, s1, x0, x1, x2);
    assert(x2 == m);
}

/// A `ForceDailyRefreshRequest` whose encoding has a length that fits a varint is well-formed.
pub proof fn lemma_wf_force_daily_refresh_request(m: SpecForceDailyRefreshRequest)
    requires
        fits(m.encoded()),
    ensures
        m.wf(),
{
    reveal(SpecForceDailyRefreshRequest::fields);
    reveal(SpecForceDailyRefreshRequest::wf);
    let s0 = seg_str(1, m.topics);
    let p0 = s0;
    let s1 = seg_str(2, m.tipcard_type);
    let p1 = p0 + s1;
    lemma_fits_parts(p0, s1);
    lemma_fits_seg_str(1, m.topics);
    lemma_fits_seg_str(2, m.tipcard_type);
}

/// Changes the settings that are present.
#[derive(Clone, Debug, PartialEq, Default)]
pub struct UpdateSettingsRequest {
    pub model: Option<String>,
    pub compress_model: Option<String>,
    pub template: Option<String>,
    pub api_key: Option<String>,
    pub base_url: Option<String>,
    pub compress_base_url: Option<String>,
    pub reasoning_effort: Option<String>,
    pub compress_reasoning_effort: Option<String>,
    pub color_scheme: Option<String>,
    pub autoupdate_enabled: Option<bool>,
    pub autoupdate_repo: Option<String>,
    pub autoupdate_branch: Option<String>,
    pub autoupdate_check_interval_secs: Option<u64>,
    pub autoupdate_command: Option<String>,
    pub daily_time_zone: Option<String>,
    pub daily_update_time: Option<String>,
    pub max_active_cards: Option<u64>,
    pub compression_level: Option<String>,
    pub grounding_strategy: Option<String>,
    pub image_strategy: Option<String>,
    pub search_api_key: Option<String>,
    pub search_base_url: Option<String>,
    pub image_sources: Option<String>,
    pub grounding_model: Option<String>,
    pub grounding_reasoning_effort: Option<String>,
    pub search_provider: Option<String>,
    pub scrape_provider: Option<String>,
    pub vision_model: Option<String>,
    pub transparency: Option<String>,
    pub blur_intensity: Option<String>,
}

/// The value of a [`UpdateSettingsRequest`].
pub struct SpecUpdateSettingsRequest {
    pub model: Option<Seq<char>>,
    pub compress_model: Option<Seq<char>>,
    pub template: Option<Seq<char>>,
    pub api_key: Option<Seq<char>>,
    pub base_url: Option<Seq<char>>,
    pub compress_base_url: Option<Seq<char>>,
    pub reasoning_effort: Option<Seq<char>>,
    pub compress_reasoning_effort: Option<Seq<char>>,
    pub color_scheme: Option<Seq<char>>,
    pub autoupdate_enabled: Option<bool>,
    pub autoupdate_repo: Option<Seq<char>>,
    pub autoupdate_branch: Option<Seq<char>>,
    pub autoupdate_check_interval_secs: Option<u64>,
    pub autoupdate_command: Option<Seq<char>>,
    pub daily_time_zone: Option<Seq<char>>,
    pub daily_update_time: Option<Seq<char>>,
    pub max_active_cards: Option<u64>,
    pub compression_level: Option<Seq<char>>,
    pub grounding_strategy: Option<Seq<char>>,
    pub image_strategy: Option<Seq<char>>,
    pub search_api_key: Option<Seq<char>>,
    pub search_base_url: Option<Seq<char>>,
    pub image_sources: Option<Seq<char>>,
    pub grounding_model: Option<Seq<char>>,
    pub grounding_reasoning_effort: Option<Seq<char>>,
    pub search_provider: Option<Seq<char>>,
    pub scrape_provider: Option<Seq<char>>,
    pub vision_model: Option<Seq<char>>,
    pub transparency: Option<Seq<char>>,
    pub blur_intensity: Option<Seq<char>>,
}

impl View for UpdateSettingsRequest {
    type V = SpecUpdateSettingsRequest;

    open spec fn view(&self) -> SpecUpdateSettingsRequest {
        SpecUpdateSettingsRequest {
            model: opt_string_view(self.model),
            compress_model: opt_string_view(self.compress_model),
            template: opt_string_view(self.template),
            api_key: opt_string_view(self.api_key),
            base_url: opt_string_view(self.base_url),
            compress_base_url: opt_string_view(self.compress_base_url),
            reasoning_effort: opt_string_view(self.reasoning_effort),
            compress_reasoning_effort: opt_string_view(self.compress_reasoning_effort),
            color_scheme: opt_string_view(self.color_scheme),
            autoupdate_enabled: self.autoupdate_enabled,
            autoupdate_repo: opt_string_view(self.autoupdate_repo),
            autoupdate_branch: opt_string_view(self.autoupdate_branch),
            autoupdate_check_interval_secs: self.autoupdate_check_interval_secs,
            autoupdate_command: opt_string_view(self.autoupdate_command),
            daily_time_zone: opt_string_view(self.daily_time_zone),
            daily_update_time: opt_string_view(self.daily_update_time),
            max_active_cards: self.max_active_cards,
            compression_level: opt_string_view(self.compression_level),
            grounding_strategy: opt_string_view(self.grounding_strategy),
            image_strategy: opt_string_view(self.image_strategy),
            search_api_key: opt_string_view(self.search_api_key),
            search_base_url: opt_string_view(self.search_base_url),
            image_sources: opt_string_view(self.image_sources),
            grounding_model: opt_string_view(self.grounding_model),
            grounding_reasoning_effort: opt_string_view(self.grounding_reasoning_effort),
            search_provider: opt_string_view(self.search_provider),
            scrape_provider: opt_string_view(self.scrape_provider),
            vision_model: opt_string_view(self.vision_model),
            transparency: opt_string_view(self.transparency),
            blur_intensity: opt_string_view(self.blur_intensity),
        }
    }
}

impl SpecUpdateSettingsRequest {
    /// Every field at its default.
    pub open spec fn empty() -> SpecUpdateSettingsRequest {
        SpecUpdateSettingsRequest {
            model: None,
            compress_model: None,
            template: None,
            api_key: None,
            base_url: None,
            compress_base_url: None,
            reasoning_effort: None,
            compress_reasoning_effort: None,
            color_scheme: None,
            autoupdate_enabled: None,
            autoupdate_repo: None,
            autoupdate_branch: None,
            autoupdate_check_interval_secs: None,
            autoupdate_command: None,
            daily_time_zone: None,
            daily_update_time: None,
            max_active_cards: None,
            compression_level: None,
            grounding_strategy: None,
            image_strategy: None,
            search_api_key: None,
            search_base_url: None,
            image_sources: None,
            grounding_model: None,
            grounding_reasoning_effort: None,
            search_provider: None,
            scrape_provider: None,
            vision_model: None,
            transparency: None,
            blur_intensity: None,
        }
    }

    /// The fields of part 0 of the message, in field-number order.
    #[verifier::opaque]
    pub open spec fn fields_part0(self) -> Seq<SpecField> {
        seg_opt_str(1, self.model)
            + seg_opt_str(2, self.compress_model)
            + seg_opt_str(3, self.template)
            + seg_opt_str(4, self.api_key)
            + seg_opt_str(5, self.base_url)
            + seg_opt_str(6, self.compress_base_url)
            + seg_opt_str(7, self.reasoning_effort)
            + seg_opt_str(8, self.compress_reasoning_effort)
    }

    /// The fields of part 1 of the message, in field-number order.
    #[verifier::opaque]
    pub open spec fn fields_part1(self) -> Seq<SpecField> {
        seg_opt_str(9, self.color_scheme)
            + opt_u64_seg(10, match self.autoupdate_enabled { Some(b) => Some(if b { 1u64 } else { 0u64 }), None => None })
            + seg_opt_str(11, self.autoupdate_repo)
            + seg_opt_str(12, self.autoupdate_branch)
            + opt_u64_seg(13, self.autoupdate_check_interval_secs)
            + seg_opt_str(14, self.autoupdate_command)
            + seg_opt_str(15, self.daily_time_zone)
            + seg_opt_str(16, self.daily_update_time)
    }

    /// The fields of part 2 of the message, in field-number order.
    #[verifier::opaque]
    pub open spec fn fields_part2(self) -> Seq<SpecField> {
        opt_u64_seg(17, self.max_active_cards)
            + seg_opt_str(18, self.compression_level)
            + seg_opt_str(19, self.grounding_strategy)
            + seg_opt_str(20, self.image_strategy)
            + seg_opt_str(21, self.search_api_key)
            + seg_opt_str(22, self.search_base_url)
            + seg_opt_str(23, self.image_sources)
            + seg_opt_str(24, self.grounding_model)
    }

    /// The fields of part 3 of the message, in field-number order.
    #[verifier::opaque]
    pub open spec fn fields_part3(self) -> Seq<SpecField> {
        seg_opt_str(25, self.grounding_reasoning_effort)
            + seg_opt_str(26, self.search_provider)
            + seg_opt_str(27, self.scrape_provider)
            + seg_opt_str(28, self.vision_model)
            + seg_opt_str(29, self.transparency)
            + seg_opt_str(30, self.blur_intensity)
    }

    /// The fields written for this value, in field-number order.
    #[verifier::opaque]
    pub open spec fn fields(self) -> Seq<SpecField> {
        self.fields_part0() + self.fields_part1() + self.fields_part2() + self.fields_part3()
    }

    pub open spec fn encoded(self) -> Seq<u8> {
        encode_fields(self.fields())
    }

    pub open spec fn encode_all(v: Seq<SpecUpdateSettingsRequest>) -> Seq<Seq<u8>> {
        Seq::new(v.len(), |i: int| v[i].encoded())
    }

    /// Every length-delimited payload fits a varint length.
    #[verifier::opaque]
    pub open spec fn wf(self) -> bool {
        (match self.model { Some(s) => fits(encode_utf8(s)), None => true })
        && (match self.compress_model { Some(s) => fits(encode_utf8(s)), None => true })
        && (match self.template { Some(s) => fits(encode_utf8(s)), None => true })
        && (match self.api_key { Some(s) => fits(encode_utf8(s)), None => true })
        && (match self.base_url { Some(s) => fits(encode_utf8(s)), None => true })
        && (match self.compress_base_url { Some(s) => fits(encode_utf8(s)), None => true })
        && (match self.reasoning_effort { Some(s) => fits(encode_utf8(s)), None => true })
        && (match self.compress_reasoning_effort { Some(s) => fits(encode_utf8(s)), None => true })
        && (match self.color_scheme { Some(s) => fits(encode_utf8(s)), None => true })
        && (match self.autoupdate_repo { Some(s) => fits(encode_utf8(s)), None => true })
        && (match self.autoupdate_branch { Some(s) => fits(encode_utf8(s)), None => true })
        && (match self.autoupdate_command { Some(s) => fits(encode_utf8(s)), None => true })
        && (match self.daily_time_zone { Some(s) => fits(encode_utf8(s)), None => true })
        && (match self.daily_update_time { Some(s) => fits(encode_utf8(s)), None => true })
        && (match self.compression_level { Some(s) => fits(encode_utf8(s)), None => true })
        && (match self.grounding_strategy { Some(s) => fits(encode_utf8(s)), None => true })
        && (match self.image_strategy { Some(s) => fits(encode_utf8(s)), None => true })
        && (match self.search_api_key { Some(s) => fits(encode_utf8(s)), None => true })
        && (match self.search_base_url { Some(s) => fits(encode_utf8(s)), None => true })
        && (match self.image_sources { Some(s) => fits(encode_utf8(s)), None => true })
        && (match self.grounding_model { Some(s) => fits(encode_utf8(s)), None => true })
        && (match self.grounding_reasoning_effort { Some(s) => fits(encode_utf8(s)), None => true })
        && (match self.search_provider { Some(s) => fits(encode_utf8(s)), None => true })
        && (match self.scrape_provider { Some(s) => fits(encode_utf8(s)), None => true })
        && (match self.vision_model { Some(s) => fits(encode_utf8(s)), None => true })
        && (match self.transparency { Some(s) => fits(encode_utf8(s)), None => true })
        && (match self.blur_intensity { Some(s) => fits(encode_utf8(s)), None => true })
    }
}

impl Message for SpecUpdateSettingsRequest {
    open spec fn merge(self, f: SpecField) -> Option<SpecUpdateSettingsRequest> {
        if f.number == 1 {
            match as_string(f.value) { Some(s) => Some(SpecUpdateSettingsRequest { model: Some(s), ..self }), None => None }
        } else if f.number == 2 {
            match as_string(f.value) { Some(s) => Some(SpecUpdateSettingsRequest { compress_model: Some(s), ..self }), None => None }
        } else if f.number == 3 {
            match as_string(f.value) { Some(s) => Some(SpecUpdateSettingsRequest { template: Some(s), ..self }), None => None }
        } else if f.number == 4 {
            match as_string(f.value) { Some(s) => Some(SpecUpdateSettingsRequest { api_key: Some(s), ..self }), None => None }
        } else if f.number == 5 {
            match as_string(f.value) { Some(s) => Some(SpecUpdateSettingsRequest { base_url: Some(s), ..self }), None => None }
        } else if f.number == 6 {
            match as_string(f.value) { Some(s) => Some(SpecUpdateSettingsRequest { compress_base_url: Some(s), ..self }), None => None }
        } else if f.number == 7 {
            match as_string(f.value) { Some(s) => Some(SpecUpdateSettingsRequest { reasoning_effort: Some(s), ..self }), None => None }
        } else if f.number == 8 {
            match as_string(f.value) { Some(s) => Some(SpecUpdateSettingsRequest { compress_reasoning_effort: Some(s), ..self }), None => None }
        } else if f.number == 9 {
            match as_string(f.value) { Some(s) => Some(SpecUpdateSettingsRequest { color_scheme: Some(s), ..self }), None => None }
        } else if f.number == 10 {
            match as_varint(f.value) { Some(v) => Some(SpecUpdateSettingsRequest { autoupdate_enabled: Some(v != 0), ..self }), None => None }
        } else if f.number == 11 {
            match as_string(f.value) { Some(s) => Some(SpecUpdateSettingsRequest { autoupdate_repo: Some(s), ..self }), None => None }
        } else if f.number == 12 {
            match as_string(f.value) { Some(s) => Some(SpecUpdateSettingsRequest { autoupdate_branch: Some(s), ..self }), None => None }
        } else if f.number == 13 {
            match as_varint(f.value) { Some(v) => Some(SpecUpdateSettingsRequest { autoupdate_check_interval_secs: Some(v), ..self }), None => None }
        } else if f.number == 14 {
            match as_string(f.value) { Some(s) => Some(SpecUpdateSettingsRequest { autoupdate_command: Some(s), ..self }), None => None }
        } else if f.number == 15 {
            match as_string(f.value) { Some(s) => Some(SpecUpdateSettingsRequest { daily_time_zone: Some(s), ..self }), None => None }
        } else if f.number == 16 {
            match as_string(f.value) { Some(s) => Some(SpecUpdateSettingsRequest { daily_update_time: Some(s), ..self }), None => None }
        } else if f.number == 17 {
            match as_varint(f.value) { Some(v) => Some(SpecUpdateSettingsRequest { max_active_cards: Some(v), ..self }), None => None }
        } else if f.number == 18 {
            match as_string(f.value) { Some(s) => Some(SpecUpdateSettingsRequest { compression_level: Some(s), ..self }), None => None }
        } else if f.number == 19 {
            match as_string(f.value) { Some(s) => Some(SpecUpdateSettingsRequest { grounding_strategy: Some(s), ..self }), None => None }
        } else if f.number == 20 {
            match as_string(f.value) { Some(s) => Some(SpecUpdateSettingsRequest { image_strategy: Some(s), ..self }), None => None }
        } else if f.number == 21 {
            match as_string(f.value) { Some(s) => Some(SpecUpdateSettingsRequest { search_api_key: Some(s), ..self }), None => None }
        } else if f.number == 22 {
            match as_string(f.value) { Some(s) => Some(SpecUpdateSettingsRequest { search_base_url: Some(s), ..self }), None => None }
        } else if f.number == 23 {
            match as_string(f.value) { Some(s) => Some(SpecUpdateSettingsRequest { image_sources: Some(s), ..self }), None => None }
        } else if f.number == 24 {
            match as_string(f.value) { Some(s) => Some(SpecUpdateSettingsRequest { grounding_model: Some(s), ..self }), None => None }
        } else if f.number == 25 {
            match as_string(f.value) { Some(s) => Some(SpecUpdateSettingsRequest { grounding_reasoning_effort: Some(s), ..self }), None => None }
        } else if f.number == 26 {
            match as_string(f.value) { Some(s) => Some(SpecUpdateSettingsRequest { search_provider: Some(s), ..self }), None => None }
        } else if f.number == 27 {
            match as_string(f.value) { Some(s) => Some(SpecUpdateSettingsRequest { scrape_provider: Some(s), ..self }), None => None }
        } else if f.number == 28 {
            match as_string(f.value) { Some(s) => Some(SpecUpdateSettingsRequest { vision_model: Some(s), ..self }), None => None }
        } else if f.number == 29 {
            match as_string(f.value) { Some(s) => Some(SpecUpdateSettingsRequest { transparency: Some(s), ..self }), None => None }
        } else if f.number == 30 {
            match as_string(f.value) { Some(s) => Some(SpecUpdateSettingsRequest { blur_intensity: Some(s), ..self }), None => None }
        } else {
            Some(self)
        }
    }
}

impl WireMessage for UpdateSettingsRequest {
    type Spec = SpecUpdateSettingsRequest;

    open spec fn spec_of(&self) -> SpecUpdateSettingsRequest {
        self@
    }

    open spec fn spec_default() -> SpecUpdateSettingsRequest {
        SpecUpdateSettingsRequest::empty()
    }

    fn default_value() -> (r: Self) {
        let r = UpdateSettingsRequest {
            model: None,
            compress_model: None,
            template: None,
            api_key: None,
            base_url: None,
            compress_base_url: None,
            reasoning_effort: None,
            compress_reasoning_effort: None,
            color_scheme: None,
            autoupdate_enabled: None,
            autoupdate_repo: None,
            autoupdate_branch: None,
            autoupdate_check_interval_secs: None,
            autoupdate_command: None,
            daily_time_zone: None,
            daily_update_time: None,
            max_active_cards: None,
            compression_level: None,
            grounding_strategy: None,
            image_strategy: None,
            search_api_key: None,
            search_base_url: None,
            image_sources: None,
            grounding_model: None,
            grounding_reasoning_effort: None,
            search_provider: None,
            scrape_provider: None,
            vision_model: None,
            transparency: None,
            blur_intensity: None,
        };
        r
    }

    fn merge_raw(&mut self, buf: &[u8], f: &RawField) -> (ok: bool) {
        if f.number <= 4 {
            self.merge_raw_part0(buf, f)
        } else if f.number <= 8 {
            self.merge_raw_part1(buf, f)
        } else if f.number <= 12 {
            self.merge_raw_part2(buf, f)
        } else if f.number <= 16 {
            self.merge_raw_part3(buf, f)
        } else if f.number <= 20 {
            self.merge_raw_part4(buf, f)
        } else if f.number <= 24 {
            self.merge_raw_part5(buf, f)
        } else if f.number <= 28 {
            self.merge_raw_part6(buf, f)
        } else {
            self.merge_raw_part7(buf, f)
        }
    }
}

impl UpdateSettingsRequest {
    #[verifier::rlimit(100)]
    fn merge_raw_part0(&mut self, buf: &[u8], f: &RawField) -> (ok: bool)
        requires
            f.within(buf@.len()),
            f.number <= 4,
        ensures
            ok == (old(self)@.merge(f.spec(buf@)) is Some),
            ok ==> final(self)@ == old(self)@.merge(f.spec(buf@))->0,
    {
        if f.number == 1 {
            match raw_string(buf, f) { Some(s) => { self.model = Some(s); true }, None => false }
        } else if f.number == 2 {
            match raw_string(buf, f) { Some(s) => { self.compress_model = Some(s); true }, None => false }
        } else if f.number == 3 {
            match raw_string(buf, f) { Some(s) => { self.template = Some(s); true }, None => false }
        } else if f.number == 4 {
            match raw_string(buf, f) { Some(s) => { self.api_key = Some(s); true }, None => false }
        } else {
            true
        }
    }

    #[verifier::rlimit(100)]
    fn merge_raw_part1(&mut self, buf: &[u8], f: &RawField) -> (ok: bool)
        requires
            f.within(buf@.len()),
            4 < f.number,
            f.number <= 8,
        ensures
            ok == (old(self)@.merge(f.spec(buf@)) is Some),
            ok ==> final(self)@ == old(self)@.merge(f.spec(buf@))->0,
    {
        if f.number == 5 {
            match raw_string(buf, f) { Some(s) => { self.base_url = Some(s); true }, None => false }
        } else if f.number == 6 {
            match raw_string(buf, f) { Some(s) => { self.compress_base_url = Some(s); true }, None => false }
        } else if f.number == 7 {
            match raw_string(buf, f) { Some(s) => { self.reasoning_effort = Some(s); true }, None => false }
        } else if f.number == 8 {
            match raw_string(buf, f) { Some(s) => { self.compress_reasoning_effort = Some(s); true }, None => false }
        } else {
            true
        }
    }

    #[verifier::rlimit(100)]
    fn merge_raw_part2(&mut self, buf: &[u8], f: &RawField) -> (ok: bool)
        requires
            f.within(buf@.len()),
            8 < f.number,
            f.number <= 12,
        ensures
            ok == (old(self)@.merge(f.spec(buf@)) is Some),
            ok ==> final(self)@ == old(self)@.merge(f.spec(buf@))->0,
    {
        if f.number == 9 {
            match raw_string(buf, f) { Some(s) => { self.color_scheme = Some(s); true }, None => false }
        } else if f.number == 10 {
            match raw_varint(f) { Some(v) => { self.autoupdate_enabled = Some(v != 0); true }, None => false }
        } else if f.number == 11 {
            match raw_string(buf, f) { Some(s) => { self.autoupdate_repo = Some(s); true }, None => false }
        } else if f.number == 12 {
            match raw_string(buf, f) { Some(s) => { self.autoupdate_branch = Some(s); true }, None => false }
        } else {
            true
        }
    }

    #[verifier::rlimit(100)]
    fn merge_raw_part3(&mut self, buf: &[u8], f: &RawField) -> (ok: bool)
        requires
            f.within(buf@.len()),
            12 < f.number,
            f.number <= 16,
        ensures
            ok == (old(self)@.merge(f.spec(buf@)) is Some),
            ok ==> final(self)@ == old(self)@.merge(f.spec(buf@))->0,
    {
        if f.number == 13 {
            match raw_varint(f) { Some(v) => { self.autoupdate_check_interval_secs = Some(v); true }, None => false }
        } else if f.number == 14 {
            match raw_string(buf, f) { Some(s) => { self.autoupdate_command = Some(s); true }, None => false }
        } else if f.number == 15 {
            match raw_string(buf, f) { Some(s) => { self.daily_time_zone = Some(s); true }, None => false }
        } else if f.number == 16 {
            match raw_string(buf, f) { Some(s) => { self.daily_update_time = Some(s); true }, None => false }
        } else {
            true
        }
    }

    #[verifier::rlimit(100)]
    fn merge_raw_part4(&mut self, buf: &[u8], f: &RawField) -> (ok: bool)
        requires
            f.within(buf@.len()),
            16 < f.number,
            f.number <= 20,
        ensures
            ok == (old(self)@.merge(f.spec(buf@)) is Some),
            ok ==> final(self)@ == old(self)@.merge(f.spec(buf@))->0,
    {
        if f.number == 17 {
            match raw_varint(f) { Some(v) => { self.max_active_cards = Some(v); true }, None => false }
        } else if f.number == 18 {
            match raw_string(buf, f) { Some(s) => { self.compression_level = Some(s); true }, None => false }
        } else if f.number == 19 {
            match raw_string(buf, f) { Some(s) => { self.grounding_strategy = Some(s); true }, None => false }
        } else if f.number == 20 {
            match raw_string(buf, f) { Some(s) => { self.image_strategy = Some(s); true }, None => false }
        } else {
            true
        }
    }

    #[verifier::rlimit(100)]
    fn merge_raw_part5(&mut self, buf: &[u8], f: &RawField) -> (ok: bool)
        requires
            f.within(buf@.len()),
            20 < f.number,
            f.number <= 24,
        ensures
            ok == (old(self)@.merge(f.spec(buf@)) is Some),
            ok ==> final(self)@ == old(self)@.merge(f.spec(buf@))->0,
    {
        if f.number == 21 {
            match raw_string(buf, f) { Some(s) => { self.search_api_key = Some(s); true }, None => false }
        } else if f.number == 22 {
            match raw_string(buf, f) { Some(s) => { self.search_base_url = Some(s); true }, None => false }
        } else if f.number == 23 {
            match raw_string(buf, f) { Some(s) => { self.image_sources = Some(s); true }, None => false }
        } else if f.number == 24 {
            match raw_string(buf, f) { Some(s) => { self.grounding_model = Some(s); true }, None => false }
        } else {
            true
        }
    }

    #[verifier::rlimit(100)]
    fn merge_raw_part6(&mut self, buf: &[u8], f: &RawField) -> (ok: bool)
        requires
            f.within(buf@.len()),
            24 < f.number,
            f.number <= 28,
        ensures
            ok == (old(self)@.merge(f.spec(buf@)) is Some),
            ok ==> final(self)@ == old(self)@.merge(f.spec(buf@))->0,
    {
        if f.number == 25 {
            match raw_string(buf, f) { Some(s) => { self.grounding_reasoning_effort = Some(s); true }, None => false }
        } else if f.number == 26 {
            match raw_string(buf, f) { Some(s) => { self.search_provider = Some(s); true }, None => false }
        } else if f.number == 27 {
            match raw_string(buf, f) { Some(s) => { self.scrape_provider = Some(s); true }, None => false }
        } else if f.number == 28 {
            match raw_string(buf, f) { Some(s) => { self.vision_model = Some(s); true }, None => false }
        } else {
            true
        }
    }

    #[verifier::rlimit(100)]
    fn merge_raw_part7(&mut self, buf: &[u8], f: &RawField) -> (ok: bool)
        requires
            f.within(buf@.len()),
            28 < f.number,
        ensures
            ok == (old(self)@.merge(f.spec(buf@)) is Some),
            ok ==> final(self)@ == old(self)@.merge(f.spec(buf@))->0,
    {
        if f.number == 29 {
            match raw_string(buf, f) { Some(s) => { self.transparency = Some(s); true }, None => false }
        } else if f.number == 30 {
            match raw_string(buf, f) { Some(s) => { self.blur_intensity = Some(s); true }, None => false }
        } else {
            true
        }
    }

}

impl UpdateSettingsRequest {
    #[verifier::rlimit(100)]
    fn encode_part0(&self, out: &mut Vec<u8>)
        ensures
            final(out)@ == old(out)@ + encode_fields(self@.fields_part0()),
    {
        let ghost start = out@;
        proof {
            reveal(SpecUpdateSettingsRequest::fields_part0);
        }
        let ghost s0 = seg_opt_str(1, self@.model);
        put_opt_str(out, 1, &self.model);
        let ghost p0 = s0;
        assert(out@ =~= start + encode_fields(p0));
        let ghost s1 = seg_opt_str(2, self@.compress_model);
        put_opt_str(out, 2, &self.compress_model);
        let ghost p1 = p0 + s1;
        proof {
            lemma_encode_fields_append(p0, s1);
        }
        assert(out@ =~= start + encode_fields(p1));
        let ghost s2 = seg_opt_str(3, self@.template);
        put_opt_str(out, 3, &self.template);
        let ghost p2 = p1 + s2;
        proof {
            lemma_encode_fields_append(p1, s2);
        }
        assert(out@ =~= start + encode_fields(p2));
        let ghost s3 = seg_opt_str(4, self@.api_key);
        put_opt_str(out, 4, &self.api_key);
        let ghost p3 = p2 + s3;
        proof {
            lemma_encode_fields_append(p2, s3);
        }
        assert(out@ =~= start + encode_fields(p3));
        let ghost s4 = seg_opt_str(5, self@.base_url);
        put_opt_str(out, 5, &self.base_url);
        let ghost p4 = p3 + s4;
        proof {
            lemma_encode_fields_append(p3, s4);
        }
        assert(out@ =~= start + encode_fields(p4));
        let ghost s5 = seg_opt_str(6, self@.compress_base_url);
        put_opt_str(out, 6, &self.compress_base_url);
        let ghost p5 = p4 + s5;
        proof {
            lemma_encode_fields_append(p4, s5);
        }
        assert(out@ =~= start + encode_fields(p5));
        let ghost s6 = seg_opt_str(7, self@.reasoning_effort);
        put_opt_str(out, 7, &self.reasoning_effort);
        let ghost p6 = p5 + s6;
        proof {
            lemma_encode_fields_append(p5, s6);
        }
        assert(out@ =~= start + encode_fields(p6));
        let ghost s7 = seg_opt_str(8, self@.compress_reasoning_effort);
        put_opt_str(out, 8, &self.compress_reasoning_effort);
        let ghost p7 = p6 + s7;
        proof {
            lemma_encode_fields_append(p6, s7);
        }
        assert(out@ =~= start + encode_fields(p7));
        assert(out@ =~= start + encode_fields(self@.fields_part0()));
    }

    #[verifier::rlimit(100)]
    fn encode_part1(&self, out: &mut Vec<u8>)
        ensures
            final(out)@ == old(out)@ + encode_fields(self@.fields_part1()),
    {
        let ghost start = out@;
        proof {
            reveal(SpecUpdateSettingsRequest::fields_part1);
        }
        let ghost s0 = seg_opt_str(9, self@.color_scheme);
        put_opt_str(out, 9, &self.color_scheme);
        let ghost p0 = s0;
        assert(out@ =~= start + encode_fields(p0));
        let ghost s1 = opt_u64_seg(10, match self@.autoupdate_enabled { Some(b) => Some(if b { 1u64 } else { 0u64 }), None => None });
        put_opt_u64(out, 10, match self.autoupdate_enabled { Some(b) => Some(if b { 1u64 } else { 0u64 }), None => None });
        let ghost p1 = p0 + s1;
        proof {
            lemma_encode_fields_append(p0, s1);
        }
        assert(out@ =~= start + encode_fields(p1));
        let ghost s2 = seg_opt_str(11, self@.autoupdate_repo);
        put_opt_str(out, 11, &self.autoupdate_repo);
        let ghost p2 = p1 + s2;
        proof {
            lemma_encode_fields_append(p1, s2);
        }
        assert(out@ =~= start + encode_fields(p2));
        let ghost s3 = seg_opt_str(12, self@.autoupdate_branch);
        put_opt_str(out, 12, &self.autoupdate_branch);
        let ghost p3 = p2 + s3;
        proof {
            lemma_encode_fields_append(p2, s3);
        }
        assert(out@ =~= start + encode_fields(p3));
        let ghost s4 = opt_u64_seg(13, self@.autoupdate_check_interval_secs);
        put_opt_u64(out, 13, self.autoupdate_check_interval_secs);
        let ghost p4 = p3 + s4;
        proof {
            lemma_encode_fields_append(p3, s4);
        }
        assert(out@ =~= start + encode_fields(p4));
        let ghost s5 = seg_opt_str(14, self@.autoupdate_command);
        put_opt_str(out, 14, &self.autoupdate_command);
        let ghost p5 = p4 + s5;
        proof {
            lemma_encode_fields_append(p4, s5);
        }
        assert(out@ =~= start + encode_fields(p5));
        let ghost s6 = seg_opt_str(15, self@.daily_time_zone);
        put_opt_str(out, 15, &self.daily_time_zone);
        let ghost p6 = p5 + s6;
        proof {
            lemma_encode_fields_append(p5, s6);
        }
        assert(out@ =~= start + encode_fields(p6));
        let ghost s7 = seg_opt_str(16, self@.daily_update_time);
        put_opt_str(out, 16, &self.daily_update_time);
        let ghost p7 = p6 + s7;
        proof {
            lemma_encode_fields_append(p6, s7);
        }
        assert(out@ =~= start + encode_fields(p7));
        assert(out@ =~= start + encode_fields(self@.fields_part1()));
    }

    #[verifier::rlimit(100)]
    fn encode_part2(&self, out: &mut Vec<u8>)
        ensures
            final(out)@ == old(out)@ + encode_fields(self@.fields_part2()),
    {
        let ghost start = out@;
        proof {
            reveal(SpecUpdateSettingsRequest::fields_part2);
        }
        let ghost s0 = opt_u64_seg(17, self@.max_active_cards);
        put_opt_u64(out, 17, self.max_active_cards);
        let ghost p0 = s0;
        assert(out@ =~= start + encode_fields(p0));
        let ghost s1 = seg_opt_str(18, self@.compression_level);
        put_opt_str(out, 18, &self.compression_level);
        let ghost p1 = p0 + s1;
        proof {
            lemma_encode_fields_append(p0, s1);
        }
        assert(out@ =~= start + encode_fields(p1));
        let ghost s2 = seg_opt_str(19, self@.grounding_strategy);
        put_opt_str(out, 19, &self.grounding_strategy);
        let ghost p2 = p1 + s2;
        proof {
            lemma_encode_fields_append(p1, s2);
        }
        assert(out@ =~= start + encode_fields(p2));
        let ghost s3 = seg_opt_str(20, self@.image_strategy);
        put_opt_str(out, 20, &self.image_strategy);
        let ghost p3 = p2 + s3;
        proof {
            lemma_encode_fields_append(p2, s3);
        }
        assert(out@ =~= start + encode_fields(p3));
        let ghost s4 = seg_opt_str(21, self@.search_api_key);
        put_opt_str(out, 21, &self.search_api_key);
        let ghost p4 = p3 + s4;
        proof {
            lemma_encode_fields_append(p3, s4);
        }
        assert(out@ =~= start + encode_fields(p4));
        let ghost s5 = seg_opt_str(22, self@.search_base_url);
        put_opt_str(out, 22, &self.search_base_url);
        let ghost p5 = p4 + s5;
        proof {
            lemma_encode_fields_append(p4, s5);
        }
        assert(out@ =~= start + encode_fields(p5));
        let ghost s6 = seg_opt_str(23, self@.image_sources);
        put_opt_str(out, 23, &self.image_sources);
        let ghost p6 = p5 + s6;
        proof {
            lemma_encode_fields_append(p5, s6);
        }
        assert(out@ =~= start + encode_fields(p6));
        let ghost s7 = seg_opt_str(24, self@.grounding_model);
        put_opt_str(out, 24, &self.grounding_model);
        let ghost p7 = p6 + s7;
        proof {
            lemma_encode_fields_append(p6, s7);
        }
        assert(out@ =~= start + encode_fields(p7));
        assert(out@ =~= start + encode_fields(self@.fields_part2()));
    }

    #[verifier::rlimit(100)]
    fn encode_part3(&self, out: &mut Vec<u8>)
        ensures
            final(out)@ == old(out)@ + encode_fields(self@.fields_part3()),
    {
        let ghost start = out@;
        proof {
            reveal(SpecUpdateSettingsRequest::fields_part3);
        }
        let ghost s0 = seg_opt_str(25, self@.grounding_reasoning_effort);
        put_opt_str(out, 25, &self.grounding_reasoning_effort);
        let ghost p0 = s0;
        assert(out@ =~= start + encode_fields(p0));
        let ghost s1 = seg_opt_str(26, self@.search_provider);
        put_opt_str(out, 26, &self.search_provider);
        let ghost p1 = p0 + s1;
        proof {
            lemma_encode_fields_append(p0, s1);
        }
        assert(out@ =~= start + encode_fields(p1));
        let ghost s2 = seg_opt_str(27, self@.scrape_provider);
        put_opt_str(out, 27, &self.scrape_provider);
        let ghost p2 = p1 + s2;
        proof {
            lemma_encode_fields_append(p1, s2);
        }
        assert(out@ =~= start + encode_fields(p2));
        let ghost s3 = seg_opt_str(28, self@.vision_model);
        put_opt_str(out, 28, &self.vision_model);
        let ghost p3 = p2 + s3;
        proof {
            lemma_encode_fields_append(p2, s3);
        }
        assert(out@ =~= start + encode_fields(p3));
        let ghost s4 = seg_opt_str(29, self@.transparency);
        put_opt_str(out, 29, &self.transparency);
        let ghost p4 = p3 + s4;
        proof {
            lemma_encode_fields_append(p3, s4);
        }
        assert(out@ =~= start + encode_fields(p4));
        let ghost s5 = seg_opt_str(30, self@.blur_intensity);
        put_opt_str(out, 30, &self.blur_intensity);
        let ghost p5 = p4 + s5;
        proof {
            lemma_encode_fields_append(p4, s5);
        }
        assert(out@ =~= start + encode_fields(p5));
        assert(out@ =~= start + encode_fields(self@.fields_part3()));
    }

    /// Appends the protobuf encoding of this message.
    pub fn encode_to(&self, out: &mut Vec<u8>)
        ensures
            final(out)@ == old(out)@ + self@.encoded(),
    {
        let ghost start = out@;
        proof {
            reveal(SpecUpdateSettingsRequest::fields);
        }
        self.encode_part0(out);
        let ghost q0 = self@.fields_part0();
        assert(out@ =~= start + encode_fields(q0));
        self.encode_part1(out);
        let ghost q1 = q0 + self@.fields_part1();
        proof {
            lemma_encode_fields_append(q0, self@.fields_part1());
        }
        assert(out@ =~= start + encode_fields(q1));
        self.encode_part2(out);
        let ghost q2 = q1 + self@.fields_part2();
        proof {
            lemma_encode_fields_append(q1, self@.fields_part2());
        }
        assert(out@ =~= start + encode_fields(q2));
        self.encode_part3(out);
        let ghost q3 = q2 + self@.fields_part3();
        proof {
            lemma_encode_fields_append(q2, self@.fields_part3());
        }
        assert(out@ =~= start + encode_fields(q3));
        assert(out@ =~= start + self@.encoded());
    }

    /// The protobuf encoding of this message.
    pub fn encode_to_vec(&self) -> (r: Vec<u8>)
        ensures
            r@ == self@.encoded(),
    {
        let mut out: Vec<u8> = Vec::new();
        self.encode_to(&mut out);
        assert(out@ =~= self@.encoded());
        out
    }

    /// Decodes a message; `None` where the bytes are not a valid encoding.
    pub fn decode(buf: &[u8]) -> (r: Option<UpdateSettingsRequest>)
        ensures
            match decode_into(buf@, SpecUpdateSettingsRequest::empty()) {
                Some(m) => r matches Some(v) && v@ == m,
                None => r is None,
            },
    {
        decode_message::<UpdateSettingsRequest>(buf)
    }

    /// Appends one length-delimited field `n` per element of `v`.
    pub fn put_repeated(out: &mut Vec<u8>, n: u32, v: &Vec<UpdateSettingsRequest>)
        requires
            1 <= n <= MAX_FIELD_NUMBER,
        ensures
            final(out)@ == old(out)@ + encode_fields(seg_rep(n, SpecUpdateSettingsRequest::encode_all(Seq::new(v@.len(), |i: int| v@[i]@)))),
    {
        let ghost all = SpecUpdateSettingsRequest::encode_all(Seq::new(v@.len(), |i: int| v@[i]@));
        let mut part: Vec<u8> = Vec::new();
        let mut i: usize = 0;
        proof {
            lemma_seg_rep_full(n, all);
            lemma_encode_empty();
        }
        while i < v.len()
            invariant
                1 <= n <= MAX_FIELD_NUMBER,
                i <= v@.len(),
                all == SpecUpdateSettingsRequest::encode_all(Seq::new(v@.len(), |i: int| v@[i]@)),
                part@ == encode_fields(seg_rep(n, all.take(i as int))),
            decreases v@.len() - i,
        {
            let b = v[i].encode_to_vec();
            proof {
                assert(all.take(i as int).push(b@) =~= all.take(i + 1));
            }
            put_rep_item(&mut part, n, b.as_slice(), Ghost(all.take(i as int)));
            i = i + 1;
        }
        proof {
            lemma_seg_rep_full(n, all);
        }
        append_all(out, &part);
    }
}

proof fn lemma_round_update_settings_request_part0(m: SpecUpdateSettingsRequest)
    requires
        m.wf(),
    ensures
        merge_fields(m.fields_part0(), SpecUpdateSettingsRequest { model: None, compress_model: None, template: None, api_key: None, base_url: None, compress_base_url: None, reasoning_effort: None, compress_reasoning_effort: None, color_scheme: None, autoupdate_enabled: None, autoupdate_repo: None, autoupdate_branch: None, autoupdate_check_interval_secs: None, autoupdate_command: None, daily_time_zone: None, daily_update_time: None, max_active_cards: None, compression_level: None, grounding_strategy: None, image_strategy: None, search_api_key: None, search_base_url: None, image_sources: None, grounding_model: None, grounding_reasoning_effort: None, search_provider: None, scrape_provider: None, vision_model: None, transparency: None, blur_intensity: None }) == Some(SpecUpdateSettingsRequest { model: m.model, compress_model: m.compress_model, template: m.template, api_key: m.api_key, base_url: m.base_url, compress_base_url: m.compress_base_url, reasoning_effort: m.reasoning_effort, compress_reasoning_effort: m.compress_reasoning_effort, color_scheme: None, autoupdate_enabled: None, autoupdate_repo: None, autoupdate_branch: None, autoupdate_check_interval_secs: None, autoupdate_command: None, daily_time_zone: None, daily_update_time: None, max_active_cards: None, compression_level: None, grounding_strategy: None, image_strategy: None, search_api_key: None, search_base_url: None, image_sources: None, grounding_model: None, grounding_reasoning_effort: None, search_provider: None, scrape_provider: None, vision_model: None, transparency: None, blur_intensity: None }),
        fields_wf(m.fields_part0()),
{
    reveal(SpecUpdateSettingsRequest::fields_part0);
    reveal(SpecUpdateSettingsRequest::wf);
    let x0 = SpecUpdateSettingsRequest { model: None, compress_model: None, template: None, api_key: None, base_url: None, compress_base_url: None, reasoning_effort: None, compress_reasoning_effort: None, color_scheme: None, autoupdate_enabled: None, autoupdate_repo: None, autoupdate_branch: None, autoupdate_check_interval_secs: None, autoupdate_command: None, daily_time_zone: None, daily_update_time: None, max_active_cards: None, compression_level: None, grounding_strategy: None, image_strategy: None, search_api_key: None, search_base_url: None, image_sources: None, grounding_model: None, grounding_reasoning_effort: None, search_provider: None, scrape_provider: None, vision_model: None, transparency: None, blur_intensity: None };
    let x1 = SpecUpdateSettingsRequest { model: m.model, compress_model: None, template: None, api_key: None, base_url: None, compress_base_url: None, reasoning_effort: None, compress_reasoning_effort: None, color_scheme: None, autoupdate_enabled: None, autoupdate_repo: None, autoupdate_branch: None, autoupdate_check_interval_secs: None, autoupdate_command: None, daily_time_zone: None, daily_update_time: None, max_active_cards: None, compression_level: None, grounding_strategy: None, image_strategy: None, search_api_key: None, search_base_url: None, image_sources: None, grounding_model: None, grounding_reasoning_effort: None, search_provider: None, scrape_provider: None, vision_model: None, transparency: None, blur_intensity: None };
    let s0 = seg_opt_str(1, m.model);
    assert(merge_fields(s0, x0) == Some(x1) && fields_wf(s0)) by {
        match m.model { Some(s) => { lemma_seg_len::<SpecUpdateSettingsRequest>(1, encode_utf8(s), x0); }, None => { lemma_seg_empty::<SpecUpdateSettingsRequest>(x0); } }
    }
    let p0 = s0;
    let x2 = SpecUpdateSettingsRequest { model: m.model, compress_model: m.compress_model, template: None, api_key: None, base_url: None, compress_base_url: None, reasoning_effort: None, compress_reasoning_effort: None, color_scheme: None, autoupdate_enabled: None, autoupdate_repo: None, autoupdate_branch: None, autoupdate_check_interval_secs: None, autoupdate_command: None, daily_time_zone: None, daily_update_time: None, max_active_cards: None, compression_level: None, grounding_strategy: None, image_strategy: None, search_api_key: None, search_base_url: None, image_sources: None, grounding_model: None, grounding_reasoning_effort: None, search_provider: None, scrape_provider: None, vision_model: None, transparency: None, blur_intensity: None };
    let s1 = seg_opt_str(2, m.compress_model);
    assert(merge_fields(s1, x1) == Some(x2) && fields_wf(s1)) by {
        match m.compress_model { Some(s) => { lemma_seg_len::<SpecUpdateSettingsRequest>(2, encode_utf8(s), x1); }, None => { lemma_seg_empty::<SpecUpdateSettingsRequest>(x1); } }
    }
    let p1 = p0 + s1;
    lemma_chain::<SpecUpdateSettingsRequest>(p0, s1, x0, x1, x2);
    let x3 = SpecUpdateSettingsRequest { model: m.model, compress_model: m.compress_model, template: m.template, api_key: None, base_url: None, compress_base_url: None, reasoning_effort: None, compress_reasoning_effort: None, color_scheme: None, autoupdate_enabled: None, autoupdate_repo: None, autoupdate_branch: None, autoupdate_check_interval_secs: None, autoupdate_command: None, daily_time_zone: None, daily_update_time: None, max_active_cards: None, compression_level: None, grounding_strategy: None, image_strategy: None, search_api_key: None, search_base_url: None, image_sources: None, grounding_model: None, grounding_reasoning_effort: None, search_provider: None, scrape_provider: None, vision_model: None, transparency: None, blur_intensity: None };
    let s2 = seg_opt_str(3, m.template);
    assert(merge_fields(s2, x2) == Some(x3) && fields_wf(s2)) by {
        match m.template { Some(s) => { lemma_seg_len::<SpecUpdateSettingsRequest>(3, encode_utf8(s), x2); }, None => { lemma_seg_empty::<SpecUpdateSettingsRequest>(x2); } }
    }
    let p2 = p1 + s2;
    lemma_chain::<SpecUpdateSettingsRequest>(p1, s2, x0, x2, x3);
    let x4 = SpecUpdateSettingsRequest { model: m.model, compress_model: m.compress_model, template: m.template, api_key: m.api_key, base_url: None, compress_base_url: None, reasoning_effort: None, compress_reasoning_effort: None, color_scheme: None, autoupdate_enabled: None, autoupdate_repo: None, autoupdate_branch: None, autoupdate_check_interval_secs: None, autoupdate_command: None, daily_time_zone: None, daily_update_time: None, max_active_cards: None, compression_level: None, grounding_strategy: None, image_strategy: None, search_api_key: None, search_base_url: None, image_sources: None, grounding_model: None, grounding_reasoning_effort: None, search_provider: None, scrape_provider: None, vision_model: None, transparency: None, blur_intensity: None };
    let s3 = seg_opt_str(4, m.api_key);
    assert(merge_fields(s3, x3) == Some(x4) && fields_wf(s3)) by {
        match m.api_key { Some(s) => { lemma_seg_len::<SpecUpdateSettingsRequest>(4, encode_utf8(s), x3); }, None => { lemma_seg_empty::<SpecUpdateSettingsRequest>(x3); } }
    }
    let p3 = p2 + s3;
    lemma_chain::<SpecUpdateSettingsRequest>(p2, s3, x0, x3, x4);
    let x5 = SpecUpdateSettingsRequest { model: m.model, compress_model: m.compress_model, template: m.template, api_key: m.api_key, base_url: m.base_url, compress_base_url: None, reasoning_effort: None, compress_reasoning_effort: None, color_scheme: None, autoupdate_enabled: None, autoupdate_repo: None, autoupdate_branch: None, autoupdate_check_interval_secs: None, autoupdate_command: None, daily_time_zone: None, daily_update_time: None, max_active_cards: None, compression_level: None, grounding_strategy: None, image_strategy: None, search_api_key: None, search_base_url: None, image_sources: None, grounding_model: None, grounding_reasoning_effort: None, search_provider: None, scrape_provider: None, vision_model: None, transparency: None, blur_intensity: None };
    let s4 = seg_opt_str(5, m.base_url);
    assert(merge_fields(s4, x4) == Some(x5) && fields_wf(s4)) by {
        match m.base_url { Some(s) => { lemma_seg_len::<SpecUpdateSettingsRequest>(5, encode_utf8(s), x4); }, None => { lemma_seg_empty::<SpecUpdateSettingsRequest>(x4); } }
    }
    let p4 = p3 + s4;
    lemma_chain::<SpecUpdateSettingsRequest>(p3, s4, x0, x4, x5);
    let x6 = SpecUpdateSettingsRequest { model: m.model, compress_model: m.compress_model, template: m.template, api_key: m.api_key, base_url: m.base_url, compress_base_url: m.compress_base_url, reasoning_effort: None, compress_reasoning_effort: None, color_scheme: None, autoupdate_enabled: None, autoupdate_repo: None, autoupdate_branch: None, autoupdate_check_interval_secs: None, autoupdate_command: None, daily_time_zone: None, daily_update_time: None, max_active_cards: None, compression_level: None, grounding_strategy: None, image_strategy: None, search_api_key: None, search_base_url: None, image_sources: None, grounding_model: None, grounding_reasoning_effort: None, search_provider: None, scrape_provider: None, vision_model: None, transparency: None, blur_intensity: None };
    let s5 = seg_opt_str(6, m.compress_base_url);
    assert(merge_fields(s5, x5) == Some(x6) && fields_wf(s5)) by {
        match m.compress_base_url { Some(s) => { lemma_seg_len::<SpecUpdateSettingsRequest>(6, encode_utf8(s), x5); }, None => { lemma_seg_empty::<SpecUpdateSettingsRequest>(x5); } }
    }
    let p5 = p4 + s5;
    lemma_chain::<SpecUpdateSettingsRequest>(p4, s5, x0, x5, x6);
    let x7 = SpecUpdateSettingsRequest { model: m.model, compress_model: m.compress_model, template: m.template, api_key: m.api_key, base_url: m.base_url, compress_base_url: m.compress_base_url, reasoning_effort: m.reasoning_effort, compress_reasoning_effort: None, color_scheme: None, autoupdate_enabled: None, autoupdate_repo: None, autoupdate_branch: None, autoupdate_check_interval_secs: None, autoupdate_command: None, daily_time_zone: None, daily_update_time: None, max_active_cards: None, compression_level: None, grounding_strategy: None, image_strategy: None, search_api_key: None, search_base_url: None, image_sources: None, grounding_model: None, grounding_reasoning_effort: None, search_provider: None, scrape_provider: None, vision_model: None, transparency: None, blur_intensity: None };
    let s6 = seg_opt_str(7, m.reasoning_effort);
    assert(merge_fields(s6, x6) == Some(x7) && fields_wf(s6)) by {
        match m.reasoning_effort { Some(s) => { lemma_seg_len::<SpecUpdateSettingsRequest>(7, encode_utf8(s), x6); }, None => { lemma_seg_empty::<SpecUpdateSettingsRequest>(x6); } }
    }
    let p6 = p5 + s6;
    lemma_chain::<SpecUpdateSettingsRequest>(p5, s6, x0, x6, x7);
    let x8 = SpecUpdateSettingsRequest { model: m.model, compress_model: m.compress_model, template: m.template, api_key: m.api_key, base_url: m.base_url, compress_base_url: m.compress_base_url, reasoning_effort: m.reasoning_effort, compress_reasoning_effort: m.compress_reasoning_effort, color_scheme: None, autoupdate_enabled: None, autoupdate_repo: None, autoupdate_branch: None, autoupdate_check_interval_secs: None, autoupdate_command: None, daily_time_zone: None, daily_update_time: None, max_active_cards: None, compression_level: None, grounding_strategy: None, image_strategy: None, search_api_key: None, search_base_url: None, image_sources: None, grounding_model: None, grounding_reasoning_effort: None, search_provider: None, scrape_provider: None, vision_model: None, transparency: None, blur_intensity: None };
    let s7 = seg_opt_str(8, m.compress_reasoning_effort);
    assert(merge_fields(s7, x7) == Some(x8) && fields_wf(s7)) by {
        match m.compress_reasoning_effort { Some(s) => { lemma_seg_len::<SpecUpdateSettingsRequest>(8, encode_utf8(s), x7); }, None => { lemma_seg_empty::<SpecUpdateSettingsRequest>(x7); } }
    }
    let p7 = p6 + s7;
    lemma_chain::<SpecUpdateSettingsRequest>(p6, s7, x0, x7, x8);
}

proof fn lemma_round_update_settings_request_part1(m: SpecUpdateSettingsRequest)
    requires
        m.wf(),
    ensures
        merge_fields(m.fields_part1(), SpecUpdateSettingsRequest { model: m.model, compress_model: m.compress_model, template: m.template, api_key: m.api_key, base_url: m.base_url, compress_base_url: m.compress_base_url, reasoning_effort: m.reasoning_effort, compress_reasoning_effort: m.compress_reasoning_effort, color_scheme: None, autoupdate_enabled: None, autoupdate_repo: None, autoupdate_branch: None, autoupdate_check_interval_secs: None, autoupdate_command: None, daily_time_zone: None, daily_update_time: None, max_active_cards: None, compression_level: None, grounding_strategy: None, image_strategy: None, search_api_key: None, search_base_url: None, image_sources: None, grounding_model: None, grounding_reasoning_effort: None, search_provider: None, scrape_provider: None, vision_model: None, transparency: None, blur_intensity: None }) == Some(SpecUpdateSettingsRequest { model: m.model, compress_model: m.compress_model, template: m.template, api_key: m.api_key, base_url: m.base_url, compress_base_url: m.compress_base_url, reasoning_effort: m.reasoning_effort, compress_reasoning_effort: m.compress_reasoning_effort, color_scheme: m.color_scheme, autoupdate_enabled: m.autoupdate_enabled, autoupdate_repo: m.autoupdate_repo, autoupdate_branch: m.autoupdate_branch, autoupdate_check_interval_secs: m.autoupdate_check_interval_secs, autoupdate_command: m.autoupdate_command, daily_time_zone: m.daily_time_zone, daily_update_time: m.daily_update_time, max_active_cards: None, compression_level: None, grounding_strategy: None, image_strategy: None, search_api_key: None, search_base_url: None, image_sources: None, grounding_model: None, grounding_reasoning_effort: None, search_provider: None, scrape_provider: None, vision_model: None, transparency: None, blur_intensity: None }),
        fields_wf(m.fields_part1()),
{
    reveal(SpecUpdateSettingsRequest::fields_part1);
    reveal(SpecUpdateSettingsRequest::wf);
    let x8 = SpecUpdateSettingsRequest { model: m.model, compress_model: m.compress_model, template: m.template, api_key: m.api_key, base_url: m.base_url, compress_base_url: m.compress_base_url, reasoning_effort: m.reasoning_effort, compress_reasoning_effort: m.compress_reasoning_effort, color_scheme: None, autoupdate_enabled: None, autoupdate_repo: None, autoupdate_branch: None, autoupdate_check_interval_secs: None, autoupdate_command: None, daily_time_zone: None, daily_update_time: None, max_active_cards: None, compression_level: None, grounding_strategy: None, image_strategy: None, search_api_key: None, search_base_url: None, image_sources: None, grounding_model: None, grounding_reasoning_effort: None, search_provider: None, scrape_provider: None, vision_model: None, transparency: None, blur_intensity: None };
    let x9 = SpecUpdateSettingsRequest { model: m.model, compress_model: m.compress_model, template: m.template, api_key: m.api_key, base_url: m.base_url, compress_base_url: m.compress_base_url, reasoning_effort: m.reasoning_effort, compress_reasoning_effort: m.compress_reasoning_effort, color_scheme: m.color_scheme, autoupdate_enabled: None, autoupdate_repo: None, autoupdate_branch: None, autoupdate_check_interval_secs: None, autoupdate_command: None, daily_time_zone: None, daily_update_time: None, max_active_cards: None, compression_level: None, grounding_strategy: None, image_strategy: None, search_api_key: None, search_base_url: None, image_sources: None, grounding_model: None, grounding_reasoning_effort: None, search_provider: None, scrape_provider: None, vision_model: None, transparency: None, blur_intensity: None };
    let s0 = seg_opt_str(9, m.color_scheme);
    assert(merge_fields(s0, x8) == Some(x9) && fields_wf(s0)) by {
        match m.color_scheme { Some(s) => { lemma_seg_len::<SpecUpdateSettingsRequest>(9, encode_utf8(s), x8); }, None => { lemma_seg_empty::<SpecUpdateSettingsRequest>(x8); } }
    }
    let p0 = s0;
    let x10 = SpecUpdateSettingsRequest { model: m.model, compress_model: m.compress_model, template: m.template, api_key: m.api_key, base_url: m.base_url, compress_base_url: m.compress_base_url, reasoning_effort: m.reasoning_effort, compress_reasoning_effort: m.compress_reasoning_effort, color_scheme: m.color_scheme, autoupdate_enabled: m.autoupdate_enabled, autoupdate_repo: None, autoupdate_branch: None, autoupdate_check_interval_secs: None, autoupdate_command: None, daily_time_zone: None, daily_update_time: None, max_active_cards: None, compression_level: None, grounding_strategy: None, image_strategy: None, search_api_key: None, search_base_url: None, image_sources: None, grounding_model: None, grounding_reasoning_effort: None, search_provider: None, scrape_provider: None, vision_model: None, transparency: None, blur_intensity: None };
    let s1 = opt_u64_seg(10, match m.autoupdate_enabled { Some(b) => Some(if b { 1u64 } else { 0u64 }), None => None });
    assert(merge_fields(s1, x9) == Some(x10) && fields_wf(s1)) by {
        lemma_seg_opt_u64::<SpecUpdateSettingsRequest>(10, match m.autoupdate_enabled { Some(b) => Some(if b { 1u64 } else { 0u64 }), None => None }, x9);
    }
    let p1 = p0 + s1;
    lemma_chain::<SpecUpdateSettingsRequest>(p0, s1, x8, x9, x10);
    let x11 = SpecUpdateSettingsRequest { model: m.model, compress_model: m.compress_model, template: m.template, api_key: m.api_key, base_url: m.base_url, compress_base_url: m.compress_base_url, reasoning_effort: m.reasoning_effort, compress_reasoning_effort: m.compress_reasoning_effort, color_scheme: m.color_scheme, autoupdate_enabled: m.autoupdate_enabled, autoupdate_repo: m.autoupdate_repo, autoupdate_branch: None, autoupdate_check_interval_secs: None, autoupdate_command: None, daily_time_zone: None, daily_update_time: None, max_active_cards: None, compression_level: None, grounding_strategy: None, image_strategy: None, search_api_key: None, search_base_url: None, image_sources: None, grounding_model: None, grounding_reasoning_effort: None, search_provider: None, scrape_provider: None, vision_model: None, transparency: None, blur_intensity: None };
    let s2 = seg_opt_str(11, m.autoupdate_repo);
    assert(merge_fields(s2, x10) == Some(x11) && fields_wf(s2)) by {
        match m.autoupdate_repo { Some(s) => { lemma_seg_len::<SpecUpdateSettingsRequest>(11, encode_utf8(s), x10); }, None => { lemma_seg_empty::<SpecUpdateSettingsRequest>(x10); } }
    }
    let p2 = p1 + s2;
    lemma_chain::<SpecUpdateSettingsRequest>(p1, s2, x8, x10, x11);
    let x12 = SpecUpdateSettingsRequest { model: m.model, compress_model: m.compress_model, template: m.template, api_key: m.api_key, base_url: m.base_url, compress_base_url: m.compress_base_url, reasoning_effort: m.reasoning_effort, compress_reasoning_effort: m.compress_reasoning_effort, color_scheme: m.color_scheme, autoupdate_enabled: m.autoupdate_enabled, autoupdate_repo: m.autoupdate_repo, autoupdate_branch: m.autoupdate_branch, autoupdate_check_interval_secs: None, autoupdate_command: None, daily_time_zone: None, daily_update_time: None, max_active_cards: None, compression_level: None, grounding_strategy: None, image_strategy: None, search_api_key: None, search_base_url: None, image_sources: None, grounding_model: None, grounding_reasoning_effort: None, search_provider: None, scrape_provider: None, vision_model: None, transparency: None, blur_intensity: None };
    let s3 = seg_opt_str(12, m.autoupdate_branch);
    assert(merge_fields(s3, x11) == Some(x12) && fields_wf(s3)) by {
        match m.autoupdate_branch { Some(s) => { lemma_seg_len::<SpecUpdateSettingsRequest>(12, encode_utf8(s), x11); }, None => { lemma_seg_empty::<SpecUpdateSettingsRequest>(x11); } }
    }
    let p3 = p2 + s3;
    lemma_chain::<SpecUpdateSettingsRequest>(p2, s3, x8, x11, x12);
    let x13 = SpecUpdateSettingsRequest { model: m.model, compress_model: m.compress_model, template: m.template, api_key: m.api_key, base_url: m.base_url, compress_base_url: m.compress_base_url, reasoning_effort: m.reasoning_effort, compress_reasoning_effort: m.compress_reasoning_effort, color_scheme: m.color_scheme, autoupdate_enabled: m.autoupdate_enabled, autoupdate_repo: m.autoupdate_repo, autoupdate_branch: m.autoupdate_branch, autoupdate_check_interval_secs: m.autoupdate_check_interval_secs, autoupdate_command: None, daily_time_zone: None, daily_update_time: None, max_active_cards: None, compression_level: None, grounding_strategy: None, image_strategy: None, search_api_key: None, search_base_url: None, image_sources: None, grounding_model: None, grounding_reasoning_effort: None, search_provider: None, scrape_provider: None, vision_model: None, transparency: None, blur_intensity: None };
    let s4 = opt_u64_seg(13, m.autoupdate_check_interval_secs);
    assert(merge_fields(s4, x12) == Some(x13) && fields_wf(s4)) by {
        lemma_seg_opt_u64::<SpecUpdateSettingsRequest>(13, m.autoupdate_check_interval_secs, x12);
    }
    let p4 = p3 + s4;
    lemma_chain::<SpecUpdateSettingsRequest>(p3, s4, x8, x12, x13);
    let x14 = SpecUpdateSettingsRequest { model: m.model, compress_model: m.compress_model, template: m.template, api_key: m.api_key, base_url: m.base_url, compress_base_url: m.compress_base_url, reasoning_effort: m.reasoning_effort, compress_reasoning_effort: m.compress_reasoning_effort, color_scheme: m.color_scheme, autoupdate_enabled: m.autoupdate_enabled, autoupdate_repo: m.autoupdate_repo, autoupdate_branch: m.autoupdate_branch, autoupdate_check_interval_secs: m.autoupdate_check_interval_secs, autoupdate_command: m.autoupdate_command, daily_time_zone: None, daily_update_time: None, max_active_cards: None, compression_level: None, grounding_strategy: None, image_strategy: None, search_api_key: None, search_base_url: None, image_sources: None, grounding_model: None, grounding_reasoning_effort: None, search_provider: None, scrape_provider: None, vision_model: None, transparency: None, blur_intensity: None };
    let s5 = seg_opt_str(14, m.autoupdate_command);
    assert(merge_fields(s5, x13) == Some(x14) && fields_wf(s5)) by {
        match m.autoupdate_command { Some(s) => { lemma_seg_len::<SpecUpdateSettingsRequest>(14, encode_utf8(s), x13); }, None => { lemma_seg_empty::<SpecUpdateSettingsRequest>(x13); } }
    }
    let p5 = p4 + s5;
    lemma_chain::<SpecUpdateSettingsRequest>(p4, s5, x8, x13, x14);
    let x15 = SpecUpdateSettingsRequest { model: m.model, compress_model: m.compress_model, template: m.template, api_key: m.api_key, base_url: m.base_url, compress_base_url: m.compress_base_url, reasoning_effort: m.reasoning_effort, compress_reasoning_effort: m.compress_reasoning_effort, color_scheme: m.color_scheme, autoupdate_enabled: m.autoupdate_enabled, autoupdate_repo: m.autoupdate_repo, autoupdate_branch: m.autoupdate_branch, autoupdate_check_interval_secs: m.autoupdate_check_interval_secs, autoupdate_command: m.autoupdate_command, daily_time_zone: m.daily_time_zone, daily_update_time: None, max_active_cards: None, compression_level: None, grounding_strategy: None, image_strategy: None, search_api_key: None, search_base_url: None, image_sources: None, grounding_model: None, grounding_reasoning_effort: None, search_provider: None, scrape_provider: None, vision_model: None, transparency: None, blur_intensity: None };
    let s6 = seg_opt_str(15, m.daily_time_zone);
    assert(merge_fields(s6, x14) == Some(x15) && fields_wf(s6)) by {
        match m.daily_time_zone { Some(s) => { lemma_seg_len::<SpecUpdateSettingsRequest>(15, encode_utf8(s), x14); }, None => { lemma_seg_empty::<SpecUpdateSettingsRequest>(x14); } }
    }
    let p6 = p5 + s6;
    lemma_chain::<SpecUpdateSettingsRequest>(p5, s6, x8, x14, x15);
    let x16 = SpecUpdateSettingsRequest { model: m.model, compress_model: m.compress_model, template: m.template, api_key: m.api_key, base_url: m.base_url, compress_base_url: m.compress_base_url, reasoning_effort: m.reasoning_effort, compress_reasoning_effort: m.compress_reasoning_effort, color_scheme: m.color_scheme, autoupdate_enabled: m.autoupdate_enabled, autoupdate_repo: m.autoupdate_repo, autoupdate_branch: m.autoupdate_branch, autoupdate_check_interval_secs: m.autoupdate_check_interval_secs, autoupdate_command: m.autoupdate_command, daily_time_zone: m.daily_time_zone, daily_update_time: m.daily_update_time, max_active_cards: None, compression_level: None, grounding_strategy: None, image_strategy: None, search_api_key: None, search_base_url: None, image_sources: None, grounding_model: None, grounding_reasoning_effort: None, search_provider: None, scrape_provider: None, vision_model: None, transparency: None, blur_intensity: None };
    let s7 = seg_opt_str(16, m.daily_update_time);
    assert(merge_fields(s7, x15) == Some(x16) && fields_wf(s7)) by {
        match m.daily_update_time { Some(s) => { lemma_seg_len::<SpecUpdateSettingsRequest>(16, encode_utf8(s), x15); }, None => { lemma_seg_empty::<SpecUpdateSettingsRequest>(x15); } }
    }
    let p7 = p6 + s7;
    lemma_chain::<SpecUpdateSettingsRequest>(p6, s7, x8, x15, x16);
}

proof fn lemma_round_update_settings_request_part2(m: SpecUpdateSettingsRequest)
    requires
        m.wf(),
    ensures
        merge_fields(m.fields_part2(), SpecUpdateSettingsRequest { model: m.model, compress_model: m.compress_model, template: m.template, api_key: m.api_key, base_url: m.base_url, compress_base_url: m.compress_base_url, reasoning_effort: m.reasoning_effort, compress_reasoning_effort: m.compress_reasoning_effort, color_scheme: m.color_scheme, autoupdate_enabled: m.autoupdate_enabled, autoupdate_repo: m.autoupdate_repo, autoupdate_branch: m.autoupdate_branch, autoupdate_check_interval_secs: m.autoupdate_check_interval_secs, autoupdate_command: m.autoupdate_command, daily_time_zone: m.daily_time_zone, daily_update_time: m.daily_update_time, max_active_cards: None, compression_level: None, grounding_strategy: None, image_strategy: None, search_api_key: None, search_base_url: None, image_sources: None, grounding_model: None, grounding_reasoning_effort: None, search_provider: None, scrape_provider: None, vision_model: None, transparency: None, blur_intensity: None }) == Some(SpecUpdateSettingsRequest { model: m.model, compress_model: m.compress_model, template: m.template, api_key: m.api_key, base_url: m.base_url, compress_base_url: m.compress_base_url, reasoning_effort: m.reasoning_effort, compress_reasoning_effort: m.compress_reasoning_effort, color_scheme: m.color_scheme, autoupdate_enabled: m.autoupdate_enabled, autoupdate_repo: m.autoupdate_repo, autoupdate_branch: m.autoupdate_branch, autoupdate_check_interval_secs: m.autoupdate_check_interval_secs, autoupdate_command: m.autoupdate_command, daily_time_zone: m.daily_time_zone, daily_update_time: m.daily_update_time, max_active_cards: m.max_active_cards, compression_level: m.compression_level, grounding_strategy: m.grounding_strategy, image_strategy: m.image_strategy, search_api_key: m.search_api_key, search_base_url: m.search_base_url, image_sources: m.image_sources, grounding_model: m.grounding_model, grounding_reasoning_effort: None, search_provider: None, scrape_provider: None, vision_model: None, transparency: None, blur_intensity: None }),
        fields_wf(m.fields_part2()),
{
    reveal(SpecUpdateSettingsRequest::fields_part2);
    reveal(SpecUpdateSettingsRequest::wf);
    let x16 = SpecUpdateSettingsRequest { model: m.model, compress_model: m.compress_model, template: m.template, api_key: m.api_key, base_url: m.base_url, compress_base_url: m.compress_base_url, reasoning_effort: m.reasoning_effort, compress_reasoning_effort: m.compress_reasoning_effort, color_scheme: m.color_scheme, autoupdate_enabled: m.autoupdate_enabled, autoupdate_repo: m.autoupdate_repo, autoupdate_branch: m.autoupdate_branch, autoupdate_check_interval_secs: m.autoupdate_check_interval_secs, autoupdate_command: m.autoupdate_command, daily_time_zone: m.daily_time_zone, daily_update_time: m.daily_update_time, max_active_cards: None, compression_level: None, grounding_strategy: None, image_strategy: None, search_api_key: None, search_base_url: None, image_sources: None, grounding_model: None, grounding_reasoning_effort: None, search_provider: None, scrape_provider: None, vision_model: None, transparency: None, blur_intensity: None };
    let x17 = SpecUpdateSettingsRequest { model: m.model, compress_model: m.compress_model, template: m.template, api_key: m.api_key, base_url: m.base_url, compress_base_url: m.compress_base_url, reasoning_effort: m.reasoning_effort, compress_reasoning_effort: m.compress_reasoning_effort, color_scheme: m.color_scheme, autoupdate_enabled: m.autoupdate_enabled, autoupdate_repo: m.autoupdate_repo, autoupdate_branch: m.autoupdate_branch, autoupdate_check_interval_secs: m.autoupdate_check_interval_secs, autoupdate_command: m.autoupdate_command, daily_time_zone: m.daily_time_zone, daily_update_time: m.daily_update_time, max_active_cards: m.max_active_cards, compression_level: None, grounding_strategy: None, image_strategy: None, search_api_key: None, search_base_url: None, image_sources: None, grounding_model: None, grounding_reasoning_effort: None, search_provider: None, scrape_provider: None, vision_model: None, transparency: None, blur_intensity: None };
    let s0 = opt_u64_seg(17, m.max_active_cards);
    assert(merge_fields(s0, x16) == Some(x17) && fields_wf(s0)) by {
        lemma_seg_opt_u64::<SpecUpdateSettingsRequest>(17, m.max_active_cards, x16);
    }
    let p0 = s0;
    let x18 = SpecUpdateSettingsRequest { model: m.model, compress_model: m.compress_model, template: m.template, api_key: m.api_key, base_url: m.base_url, compress_base_url: m.compress_base_url, reasoning_effort: m.reasoning_effort, compress_reasoning_effort: m.compress_reasoning_effort, color_scheme: m.color_scheme, autoupdate_enabled: m.autoupdate_enabled, autoupdate_repo: m.autoupdate_repo, autoupdate_branch: m.autoupdate_branch, autoupdate_check_interval_secs: m.autoupdate_check_interval_secs, autoupdate_command: m.autoupdate_command, daily_time_zone: m.daily_time_zone, daily_update_time: m.daily_update_time, max_active_cards: m.max_active_cards, compression_level: m.compression_level, grounding_strategy: None, image_strategy: None, search_api_key: None, search_base_url: None, image_sources: None, grounding_model: None, grounding_reasoning_effort: None, search_provider: None, scrape_provider: None, vision_model: None, transparency: None, blur_intensity: None };
    let s1 = seg_opt_str(18, m.compression_level);
    assert(merge_fields(s1, x17) == Some(x18) && fields_wf(s1)) by {
        match m.compression_level { Some(s) => { lemma_seg_len::<SpecUpdateSettingsRequest>(18, encode_utf8(s), x17); }, None => { lemma_seg_empty::<SpecUpdateSettingsRequest>(x17); } }
    }
    let p1 = p0 + s1;
    lemma_chain::<SpecUpdateSettingsRequest>(p0, s1, x16, x17, x18);
    let x19 = SpecUpdateSettingsRequest { model: m.model, compress_model: m.compress_model, template: m.template, api_key: m.api_key, base_url: m.base_url, compress_base_url: m.compress_base_url, reasoning_effort: m.reasoning_effort, compress_reasoning_effort: m.compress_reasoning_effort, color_scheme: m.color_scheme, autoupdate_enabled: m.autoupdate_enabled, autoupdate_repo: m.autoupdate_repo, autoupdate_branch: m.autoupdate_branch, autoupdate_check_interval_secs: m.autoupdate_check_interval_secs, autoupdate_command: m.autoupdate_command, daily_time_zone: m.daily_time_zone, daily_update_time: m.daily_update_time, max_active_cards: m.max_active_cards, compression_level: m.compression_level, grounding_strategy: m.grounding_strategy, image_strategy: None, search_api_key: None, search_base_url: None, image_sources: None, grounding_model: None, grounding_reasoning_effort: None, search_provider: None, scrape_provider: None, vision_model: None, transparency: None, blur_intensity: None };
    let s2 = seg_opt_str(19, m.grounding_strategy);
    assert(merge_fields(s2, x18) == Some(x19) && fields_wf(s2)) by {
        match m.grounding_strategy { Some(s) => { lemma_seg_len::<SpecUpdateSettingsRequest>(19, encode_utf8(s), x18); }, None => { lemma_seg_empty::<SpecUpdateSettingsRequest>(x18); } }
    }
    let p2 = p1 + s2;
    lemma_chain::<SpecUpdateSettingsRequest>(p1, s2, x16, x18, x19);
    let x20 = SpecUpdateSettingsRequest { model: m.model, compress_model: m.compress_model, template: m.template, api_key: m.api_key, base_url: m.base_url, compress_base_url: m.compress_base_url, reasoning_effort: m.reasoning_effort, compress_reasoning_effort: m.compress_reasoning_effort, color_scheme: m.color_scheme, autoupdate_enabled: m.autoupdate_enabled, autoupdate_repo: m.autoupdate_repo, autoupdate_branch: m.autoupdate_branch, autoupdate_check_interval_secs: m.autoupdate_check_interval_secs, autoupdate_command: m.autoupdate_command, daily_time_zone: m.daily_time_zone, daily_update_time: m.daily_update_time, max_active_cards: m.max_active_cards, compression_level: m.compression_level, grounding_strategy: m.grounding_strategy, image_strategy: m.image_strategy, search_api_key: None, search_base_url: None, image_sources: None, grounding_model: None, grounding_reasoning_effort: None, search_provider: None, scrape_provider: None, vision_model: None, transparency: None, blur_intensity: None };
    let s3 = seg_opt_str(20, m.image_strategy);
    assert(merge_fields(s3, x19) == Some(x20) && fields_wf(s3)) by {
        match m.image_strategy { Some(s) => { lemma_seg_len::<SpecUpdateSettingsRequest>(20, encode_utf8(s), x19); }, None => { lemma_seg_empty::<SpecUpdateSettingsRequest>(x19); } }
    }
    let p3 = p2 + s3;
    lemma_chain::<SpecUpdateSettingsRequest>(p2, s3, x16, x19, x20);
    let x21 = SpecUpdateSettingsRequest { model: m.model, compress_model: m.compress_model, template: m.template, api_key: m.api_key, base_url: m.base_url, compress_base_url: m.compress_base_url, reasoning_effort: m.reasoning_effort, compress_reasoning_effort: m.compress_reasoning_effort, color_scheme: m.color_scheme, autoupdate_enabled: m.autoupdate_enabled, autoupdate_repo: m.autoupdate_repo, autoupdate_branch: m.autoupdate_branch, autoupdate_check_interval_secs: m.autoupdate_check_interval_secs, autoupdate_command: m.autoupdate_command, daily_time_zone: m.daily_time_zone, daily_update_time: m.daily_update_time, max_active_cards: m.max_active_cards, compression_level: m.compression_level, grounding_strategy: m.grounding_strategy, image_strategy: m.image_strategy, search_api_key: m.search_api_key, search_base_url: None, image_sources: None, grounding_model: None, grounding_reasoning_effort: None, search_provider: None, scrape_provider: None, vision_model: None, transparency: None, blur_intensity: None };
    let s4 = seg_opt_str(21, m.search_api_key);
    assert(merge_fields(s4, x20) == Some(x21) && fields_wf(s4)) by {
        match m.search_api_key { Some(s) => { lemma_seg_len::<SpecUpdateSettingsRequest>(21, encode_utf8(s), x20); }, None => { lemma_seg_empty::<SpecUpdateSettingsRequest>(x20); } }
    }
    let p4 = p3 + s4;
    lemma_chain::<SpecUpdateSettingsRequest>(p3, s4, x16, x20, x21);
    let x22 = SpecUpdateSettingsRequest { model: m.model, compress_model: m.compress_model, template: m.template, api_key: m.api_key, base_url: m.base_url, compress_base_url: m.compress_base_url, reasoning_effort: m.reasoning_effort, compress_reasoning_effort: m.compress_reasoning_effort, color_scheme: m.color_scheme, autoupdate_enabled: m.autoupdate_enabled, autoupdate_repo: m.autoupdate_repo, autoupdate_branch: m.autoupdate_branch, autoupdate_check_interval_secs: m.autoupdate_check_interval_secs, autoupdate_command: m.autoupdate_command, daily_time_zone: m.daily_time_zone, daily_update_time: m.daily_update_time, max_active_cards: m.max_active_cards, compression_level: m.compression_level, grounding_strategy: m.grounding_strategy, image_strategy: m.image_strategy, search_api_key: m.search_api_key, search_base_url: m.search_base_url, image_sources: None, grounding_model: None, grounding_reasoning_effort: None, search_provider: None, scrape_provider: None, vision_model: None, transparency: None, blur_intensity: None };
    let s5 = seg_opt_str(22, m.search_base_url);
    assert(merge_fields(s5, x21) == Some(x22) && fields_wf(s5)) by {
        match m.search_base_url { Some(s) => { lemma_seg_len::<SpecUpdateSettingsRequest>(22, encode_utf8(s), x21); }, None => { lemma_seg_empty::<SpecUpdateSettingsRequest>(x21); } }
    }
    let p5 = p4 + s5;
    lemma_chain::<SpecUpdateSettingsRequest>(p4, s5, x16, x21, x22);
    let x23 = SpecUpdateSettingsRequest { model: m.model, compress_model: m.compress_model, template: m.template, api_key: m.api_key, base_url: m.base_url, compress_base_url: m.compress_base_url, reasoning_effort: m.reasoning_effort, compress_reasoning_effort: m.compress_reasoning_effort, color_scheme: m.color_scheme, autoupdate_enabled: m.autoupdate_enabled, autoupdate_repo: m.autoupdate_repo, autoupdate_branch: m.autoupdate_branch, autoupdate_check_interval_secs: m.autoupdate_check_interval_secs, autoupdate_command: m.autoupdate_command, daily_time_zone: m.daily_time_zone, daily_update_time: m.daily_update_time, max_active_cards: m.max_active_cards, compression_level: m.compression_level, grounding_strategy: m.grounding_strategy, image_strategy: m.image_strategy, search_api_key: m.search_api_key, search_base_url: m.search_base_url, image_sources: m.image_sources, grounding_model: None, grounding_reasoning_effort: None, search_provider: None, scrape_provider: None, vision_model: None, transparency: None, blur_intensity: None };
    let s6 = seg_opt_str(23, m.image_sources);
    assert(merge_fields(s6, x22) == Some(x23) && fields_wf(s6)) by {
        match m.image_sources { Some(s) => { lemma_seg_len::<SpecUpdateSettingsRequest>(23, encode_utf8(s), x22); }, None => { lemma_seg_empty::<SpecUpdateSettingsRequest>(x22); } }
    }
    let p6 = p5 + s6;
    lemma_chain::<SpecUpdateSettingsRequest>(p5, s6, x16, x22, x23);
    let x24 = SpecUpdateSettingsRequest { model: m.model, compress_model: m.compress_model, template: m.template, api_key: m.api_key, base_url: m.base_url, compress_base_url: m.compress_base_url, reasoning_effort: m.reasoning_effort, compress_reasoning_effort: m.compress_reasoning_effort, color_scheme: m.color_scheme, autoupdate_enabled: m.autoupdate_enabled, autoupdate_repo: m.autoupdate_repo, autoupdate_branch: m.autoupdate_branch, autoupdate_check_interval_secs: m.autoupdate_check_interval_secs, autoupdate_command: m.autoupdate_command, daily_time_zone: m.daily_time_zone, daily_update_time: m.daily_update_time, max_active_cards: m.max_active_cards, compression_level: m.compression_level, grounding_strategy: m.grounding_strategy, image_strategy: m.image_strategy, search_api_key: m.search_api_key, search_base_url: m.search_base_url, image_sources: m.image_sources, grounding_model: m.grounding_model, grounding_reasoning_effort: None, search_provider: None, scrape_provider: None, vision_model: None, transparency: None, blur_intensity: None };
    let s7 = seg_opt_str(24, m.grounding_model);
    assert(merge_fields(s7, x23) == Some(x24) && fields_wf(s7)) by {
        match m.grounding_model { Some(s) => { lemma_seg_len::<SpecUpdateSettingsRequest>(24, encode_utf8(s), x23); }, None => { lemma_seg_empty::<SpecUpdateSettingsRequest>(x23); } }
    }
    let p7 = p6 + s7;
    lemma_chain::<SpecUpdateSettingsRequest>(p6, s7, x16, x23, x24);
}

proof fn lemma_round_update_settings_request_part3(m: SpecUpdateSettingsRequest)
    requires
        m.wf(),
    ensures
        merge_fields(m.fields_part3(), SpecUpdateSettingsRequest { model: m.model, compress_model: m.compress_model, template: m.template, api_key: m.api_key, base_url: m.base_url, compress_base_url: m.compress_base_url, reasoning_effort: m.reasoning_effort, compress_reasoning_effort: m.compress_reasoning_effort, color_scheme: m.color_scheme, autoupdate_enabled: m.autoupdate_enabled, autoupdate_repo: m.autoupdate_repo, autoupdate_branch: m.autoupdate_branch, autoupdate_check_interval_secs: m.autoupdate_check_interval_secs, autoupdate_command: m.autoupdate_command, daily_time_zone: m.daily_time_zone, daily_update_time: m.daily_update_time, max_active_cards: m.max_active_cards, compression_level: m.compression_level, grounding_strategy: m.grounding_strategy, image_strategy: m.image_strategy, search_api_key: m.search_api_key, search_base_url: m.search_base_url, image_sources: m.image_sources, grounding_model: m.grounding_model, grounding_reasoning_effort: None, search_provider: None, scrape_provider: None, vision_model: None, transparency: None, blur_intensity: None }) == Some(SpecUpdateSettingsRequest { model: m.model, compress_model: m.compress_model, template: m.template, api_key: m.api_key, base_url: m.base_url, compress_base_url: m.compress_base_url, reasoning_effort: m.reasoning_effort, compress_reasoning_effort: m.compress_reasoning_effort, color_scheme: m.color_scheme, autoupdate_enabled: m.autoupdate_enabled, autoupdate_repo: m.autoupdate_repo, autoupdate_branch: m.autoupdate_branch, autoupdate_check_interval_secs: m.autoupdate_check_interval_secs, autoupdate_command: m.autoupdate_command, daily_time_zone: m.daily_time_zone, daily_update_time: m.daily_update_time, max_active_cards: m.max_active_cards, compression_level: m.compression_level, grounding_strategy: m.grounding_strategy, image_strategy: m.image_strategy, search_api_key: m.search_api_key, search_base_url: m.search_base_url, image_sources: m.image_sources, grounding_model: m.grounding_model, grounding_reasoning_effort: m.grounding_reasoning_effort, search_provider: m.search_provider, scrape_provider: m.scrape_provider, vision_model: m.vision_model, transparency: m.transparency, blur_intensity: m.blur_intensity }),
        fields_wf(m.fields_part3()),
{
    reveal(SpecUpdateSettingsRequest::fields_part3);
    reveal(SpecUpdateSettingsRequest::wf);
    let x24 = SpecUpdateSettingsRequest { model: m.model, compress_model: m.compress_model, template: m.template, api_key: m.api_key, base_url: m.base_url, compress_base_url: m.compress_base_url, reasoning_effort: m.reasoning_effort, compress_reasoning_effort: m.compress_reasoning_effort, color_scheme: m.color_scheme, autoupdate_enabled: m.autoupdate_enabled, autoupdate_repo: m.autoupdate_repo, autoupdate_branch: m.autoupdate_branch, autoupdate_check_interval_secs: m.autoupdate_check_interval_secs, autoupdate_command: m.autoupdate_command, daily_time_zone: m.daily_time_zone, daily_update_time: m.daily_update_time, max_active_cards: m.max_active_cards, compression_level: m.compression_level, grounding_strategy: m.grounding_strategy, image_strategy: m.image_strategy, search_api_key: m.search_api_key, search_base_url: m.search_base_url, image_sources: m.image_sources, grounding_model: m.grounding_model, grounding_reasoning_effort: None, search_provider: None, scrape_provider: None, vision_model: None, transparency: None, blur_intensity: None };
    let x25 = SpecUpdateSettingsRequest { model: m.model, compress_model: m.compress_model, template: m.template, api_key: m.api_key, base_url: m.base_url, compress_base_url: m.compress_base_url, reasoning_effort: m.reasoning_effort, compress_reasoning_effort: m.compress_reasoning_effort, color_scheme: m.color_scheme, autoupdate_enabled: m.autoupdate_enabled, autoupdate_repo: m.autoupdate_repo, autoupdate_branch: m.autoupdate_branch, autoupdate_check_interval_secs: m.autoupdate_check_interval_secs, autoupdate_command: m.autoupdate_command, daily_time_zone: m.daily_time_zone, daily_update_time: m.daily_update_time, max_active_cards: m.max_active_cards, compression_level: m.compression_level, grounding_strategy: m.grounding_strategy, image_strategy: m.image_strategy, search_api_key: m.search_api_key, search_base_url: m.search_base_url, image_sources: m.image_sources, grounding_model: m.grounding_model, grounding_reasoning_effort: m.grounding_reasoning_effort, search_provider: None, scrape_provider: None, vision_model: None, transparency: None, blur_intensity: None };
    let s0 = seg_opt_str(25, m.grounding_reasoning_effort);
    assert(merge_fields(s0, x24) == Some(x25) && fields_wf(s0)) by {
        match m.grounding_reasoning_effort { Some(s) => { lemma_seg_len::<SpecUpdateSettingsRequest>(25, encode_utf8(s), x24); }, None => { lemma_seg_empty::<SpecUpdateSettingsRequest>(x24); } }
    }
    let p0 = s0;
    let x26 = SpecUpdateSettingsRequest { model: m.model, compress_model: m.compress_model, template: m.template, api_key: m.api_key, base_url: m.base_url, compress_base_url: m.compress_base_url, reasoning_effort: m.reasoning_effort, compress_reasoning_effort: m.compress_reasoning_effort, color_scheme: m.color_scheme, autoupdate_enabled: m.autoupdate_enabled, autoupdate_repo: m.autoupdate_repo, autoupdate_branch: m.autoupdate_branch, autoupdate_check_interval_secs: m.autoupdate_check_interval_secs, autoupdate_command: m.autoupdate_command, daily_time_zone: m.daily_time_zone, daily_update_time: m.daily_update_time, max_active_cards: m.max_active_cards, compression_level: m.compression_level, grounding_strategy: m.grounding_strategy, image_strategy: m.image_strategy, search_api_key: m.search_api_key, search_base_url: m.search_base_url, image_sources: m.image_sources, grounding_model: m.grounding_model, grounding_reasoning_effort: m.grounding_reasoning_effort, search_provider: m.search_provider, scrape_provider: None, vision_model: None, transparency: None, blur_intensity: None };
    let s1 = seg_opt_str(26, m.search_provider);
    assert(merge_fields(s1, x25) == Some(x26) && fields_wf(s1)) by {
        match m.search_provider { Some(s) => { lemma_seg_len::<SpecUpdateSettingsRequest>(26, encode_utf8(s), x25); }, None => { lemma_seg_empty::<SpecUpdateSettingsRequest>(x25); } }
    }
    let p1 = p0 + s1;
    lemma_chain::<SpecUpdateSettingsRequest>(p0, s1, x24, x25, x26);
    let x27 = SpecUpdateSettingsRequest { model: m.model, compress_model: m.compress_model, template: m.template, api_key: m.api_key, base_url: m.base_url, compress_base_url: m.compress_base_url, reasoning_effort: m.reasoning_effort, compress_reasoning_effort: m.compress_reasoning_effort, color_scheme: m.color_scheme, autoupdate_enabled: m.autoupdate_enabled, autoupdate_repo: m.autoupdate_repo, autoupdate_branch: m.autoupdate_branch, autoupdate_check_interval_secs: m.autoupdate_check_interval_secs, autoupdate_command: m.autoupdate_command, daily_time_zone: m.daily_time_zone, daily_update_time: m.daily_update_time, max_active_cards: m.max_active_cards, compression_level: m.compression_level, grounding_strategy: m.grounding_strategy, image_strategy: m.image_strategy, search_api_key: m.search_api_key, search_base_url: m.search_base_url, image_sources: m.image_sources, grounding_model: m.grounding_model, grounding_reasoning_effort: m.grounding_reasoning_effort, search_provider: m.search_provider, scrape_provider: m.scrape_provider, vision_model: None, transparency: None, blur_intensity: None };
    let s2 = seg_opt_str(27, m.scrape_provider);
    assert(merge_fields(s2, x26) == Some(x27) && fields_wf(s2)) by {
        match m.scrape_provider { Some(s) => { lemma_seg_len::<SpecUpdateSettingsRequest>(27, encode_utf8(s), x26); }, None => { lemma_seg_empty::<SpecUpdateSettingsRequest>(x26); } }
    }
    let p2 = p1 + s2;
    lemma_chain::<SpecUpdateSettingsRequest>(p1, s2, x24, x26, x27);
    let x28 = SpecUpdateSettingsRequest { model: m.model, compress_model: m.compress_model, template: m.template, api_key: m.api_key, base_url: m.base_url, compress_base_url: m.compress_base_url, reasoning_effort: m.reasoning_effort, compress_reasoning_effort: m.compress_reasoning_effort, color_scheme: m.color_scheme, autoupdate_enabled: m.autoupdate_enabled, autoupdate_repo: m.autoupdate_repo, autoupdate_branch: m.autoupdate_branch, autoupdate_check_interval_secs: m.autoupdate_check_interval_secs, autoupdate_command: m.autoupdate_command, daily_time_zone: m.daily_time_zone, daily_update_time: m.daily_update_time, max_active_cards: m.max_active_cards, compression_level: m.compression_level, grounding_strategy: m.grounding_strategy, image_strategy: m.image_strategy, search_api_key: m.search_api_key, search_base_url: m.search_base_url, image_sources: m.image_sources, grounding_model: m.grounding_model, grounding_reasoning_effort: m.grounding_reasoning_effort, search_provider: m.search_provider, scrape_provider: m.scrape_provider, vision_model: m.vision_model, transparency: None, blur_intensity: None };
    let s3 = seg_opt_str(28, m.vision_model);
    assert(merge_fields(s3, x27) == Some(x28) && fields_wf(s3)) by {
        match m.vision_model { Some(s) => { lemma_seg_len::<SpecUpdateSettingsRequest>(28, encode_utf8(s), x27); }, None => { lemma_seg_empty::<SpecUpdateSettingsRequest>(x27); } }
    }
    let p3 = p2 + s3;
    lemma_chain::<SpecUpdateSettingsRequest>(p2, s3, x24, x27, x28);
    let x29 = SpecUpdateSettingsRequest { model: m.model, compress_model: m.compress_model, template: m.template, api_key: m.api_key, base_url: m.base_url, compress_base_url: m.compress_base_url, reasoning_effort: m.reasoning_effort, compress_reasoning_effort: m.compress_reasoning_effort, color_scheme: m.color_scheme, autoupdate_enabled: m.autoupdate_enabled, autoupdate_repo: m.autoupdate_repo, autoupdate_branch: m.autoupdate_branch, autoupdate_check_interval_secs: m.autoupdate_check_interval_secs, autoupdate_command: m.autoupdate_command, daily_time_zone: m.daily_time_zone, daily_update_time: m.daily_update_time, max_active_cards: m.max_active_cards, compression_level: m.compression_level, grounding_strategy: m.grounding_strategy, image_strategy: m.image_strategy, search_api_key: m.search_api_key, search_base_url: m.search_base_url, image_sources: m.image_sources, grounding_model: m.grounding_model, grounding_reasoning_effort: m.grounding_reasoning_effort, search_provider: m.search_provider, scrape_provider: m.scrape_provider, vision_model: m.vision_model, transparency: m.transparency, blur_intensity: None };
    let s4 = seg_opt_str(29, m.transparency);
    assert(merge_fields(s4, x28) == Some(x29) && fields_wf(s4)) by {
        match m.transparency { Some(s) => { lemma_seg_len::<SpecUpdateSettingsRequest>(29, encode_utf8(s), x28); }, None => { lemma_seg_empty::<SpecUpdateSettingsRequest>(x28); } }
    }
    let p4 = p3 + s4;
    lemma_chain::<SpecUpdateSettingsRequest>(p3, s4, x24, x28, x29);
    let x30 = SpecUpdateSettingsRequest { model: m.model, compress_model: m.compress_model, template: m.template, api_key: m.api_key, base_url: m.base_url, compress_base_url: m.compress_base_url, reasoning_effort: m.reasoning_effort, compress_reasoning_effort: m.compress_reasoning_effort, color_scheme: m.color_scheme, autoupdate_enabled: m.autoupdate_enabled, autoupdate_repo: m.autoupdate_repo, autoupdate_branch: m.autoupdate_branch, autoupdate_check_interval_secs: m.autoupdate_check_interval_secs, autoupdate_command: m.autoupdate_command, daily_time_zone: m.daily_time_zone, daily_update_time: m.daily_update_time, max_active_cards: m.max_active_cards, compression_level: m.compression_level, grounding_strategy: m.grounding_strategy, image_strategy: m.image_strategy, search_api_key: m.search_api_key, search_base_url: m.search_base_url, image_sources: m.image_sources, grounding_model: m.grounding_model, grounding_reasoning_effort: m.grounding_reasoning_effort, search_provider: m.search_provider, scrape_provider: m.scrape_provider, vision_model: m.vision_model, transparency: m.transparency, blur_intensity: m.blur_intensity };
    let s5 = seg_opt_str(30, m.blur_intensity);
    assert(merge_fields(s5, x29) == Some(x30) && fields_wf(s5)) by {
        match m.blur_intensity { Some(s) => { lemma_seg_len::<SpecUpdateSettingsRequest>(30, encode_utf8(s), x29); }, None => { lemma_seg_empty::<SpecUpdateSettingsRequest>(x29); } }
    }
    let p5 = p4 + s5;
    lemma_chain::<SpecUpdateSettingsRequest>(p4, s5, x24, x29, x30);
}

/// Decoding the fields of a well-formed `UpdateSettingsRequest` gives it back.
pub proof fn lemma_round_update_settings_request(m: SpecUpdateSettingsRequest)
    requires
        m.wf(),
    ensures
        merge_fields(m.fields(), SpecUpdateSettingsRequest::empty()) == Some(m),
        fields_wf(m.fields()),
{
    reveal(SpecUpdateSettingsRequest::fields);
    lemma_round_update_settings_request_part0(m);
    let y1 = SpecUpdateSettingsRequest { model: m.model, compress_model: m.compress_model, template: m.template, api_key: m.api_key, base_url: m.base_url, compress_base_url: m.compress_base_url, reasoning_effort: m.reasoning_effort, compress_reasoning_effort: m.compress_reasoning_effort, color_scheme: None, autoupdate_enabled: None, autoupdate_repo: None, autoupdate_branch: None, autoupdate_check_interval_secs: None, autoupdate_command: None, daily_time_zone: None, daily_update_time: None, max_active_cards: None, compression_level: None, grounding_strategy: None, image_strategy: None, search_api_key: None, search_base_url: None, image_sources: None, grounding_model: None, grounding_reasoning_effort: None, search_provider: None, scrape_provider: None, vision_model: None, transparency: None, blur_intensity: None };
    assert(SpecUpdateSettingsRequest::empty() == SpecUpdateSettingsRequest { model: None, compress_model: None, template: None, api_key: None, base_url: None, compress_base_url: None, reasoning_effort: None, compress_reasoning_effort: None, color_scheme: None, autoupdate_enabled: None, autoupdate_repo: None, autoupdate_branch: None, autoupdate_check_interval_secs: None, autoupdate_command: None, daily_time_zone: None, daily_update_time: None, max_active_cards: None, compression_level: None, grounding_strategy: None, image_strategy: None, search_api_key: None, search_base_url: None, image_sources: None, grounding_model: None, grounding_reasoning_effort: None, search_provider: None, scrape_provider: None, vision_model: None, transparency: None, blur_intensity: None });
    let q0 = m.fields_part0();
    lemma_round_update_settings_request_part1(m);
    let y2 = SpecUpdateSettingsRequest { model: m.model, compress_model: m.compress_model, template: m.template, api_key: m.api_key, base_url: m.base_url, compress_base_url: m.compress_base_url, reasoning_effort: m.reasoning_effort, compress_reasoning_effort: m.compress_reasoning_effort, color_scheme: m.color_scheme, autoupdate_enabled: m.autoupdate_enabled, autoupdate_repo: m.autoupdate_repo, autoupdate_branch: m.autoupdate_branch, autoupdate_check_interval_secs: m.autoupdate_check_interval_secs, autoupdate_command: m.autoupdate_command, daily_time_zone: m.daily_time_zone, daily_update_time: m.daily_update_time, max_active_cards: None, compression_level: None, grounding_strategy: None, image_strategy: None, search_api_key: None, search_base_url: None, image_sources: None, grounding_model: None, grounding_reasoning_effort: None, search_provider: None, scrape_provider: None, vision_model: None, transparency: None, blur_intensity: None };
    let q1 = q0 + m.fields_part1();
    lemma_chain::<SpecUpdateSettingsRequest>(q0, m.fields_part1(), SpecUpdateSettingsRequest::empty(), y1, y2);
    lemma_round_update_settings_request_part2(m);
    let y3 = SpecUpdateSettingsRequest { model: m.model, compress_model: m.compress_model, template: m.template, api_key: m.api_key, base_url: m.base_url, compress_base_url: m.compress_base_url, reasoning_effort: m.reasoning_effort, compress_reasoning_effort: m.compress_reasoning_effort, color_scheme: m.color_scheme, autoupdate_enabled: m.autoupdate_enabled, autoupdate_repo: m.autoupdate_repo, autoupdate_branch: m.autoupdate_branch, autoupdate_check_interval_secs: m.autoupdate_check_interval_secs, autoupdate_command: m.autoupdate_command, daily_time_zone: m.daily_time_zone, daily_update_time: m.daily_update_time, max_active_cards: m.max_active_cards, compression_level: m.compression_level, grounding_strategy: m.grounding_strategy, image_strategy: m.image_strategy, search_api_key: m.search_api_key, search_base_url: m.search_base_url, image_sources: m.image_sources, grounding_model: m.grounding_model, grounding_reasoning_effort: None, search_provider: None, scrape_provider: None, vision_model: None, transparency: None, blur_intensity: None };
    let q2 = q1 + m.fields_part2();
    lemma_chain::<SpecUpdateSettingsRequest>(q1, m.fields_part2(), SpecUpdateSettingsRequest::empty(), y2, y3);
    lemma_round_update_settings_request_part3(m);
    let y4 = SpecUpdateSettingsRequest { model: m.model, compress_model: m.compress_model, template: m.template, api_key: m.api_key, base_url: m.base_url, compress_base_url: m.compress_base_url, reasoning_effort: m.reasoning_effort, compress_reasoning_effort: m.compress_reasoning_effort, color_scheme: m.color_scheme, autoupdate_enabled: m.autoupdate_enabled, autoupdate_repo: m.autoupdate_repo, autoupdate_branch: m.autoupdate_branch, autoupdate_check_interval_secs: m.autoupdate_check_interval_secs, autoupdate_command: m.autoupdate_command, daily_time_zone: m.daily_time_zone, daily_update_time: m.daily_update_time, max_active_cards: m.max_active_cards, compression_level: m.compression_level, grounding_strategy: m.grounding_strategy, image_strategy: m.image_strategy, search_api_key: m.search_api_key, search_base_url: m.search_base_url, image_sources: m.image_sources, grounding_model: m.grounding_model, grounding_reasoning_effort: m.grounding_reasoning_effort, search_provider: m.search_provider, scrape_provider: m.scrape_provider, vision_model: m.vision_model, transparency: m.transparency, blur_intensity: m.blur_intensity };
    let q3 = q2 + m.fields_part3();
    lemma_chain::<SpecUpdateSettingsRequest>(q2, m.fields_part3(), SpecUpdateSettingsRequest::empty(), y3, y4);
    assert(y4 == m);
}

proof fn lemma_wf_update_settings_request_part0(m: SpecUpdateSettingsRequest)
    requires
        fits(encode_fields(m.fields_part0())),
    ensures
        (match m.model { Some(s) => fits(encode_utf8(s)), None => true }),
        (match m.compress_model { Some(s) => fits(encode_utf8(s)), None => true }),
        (match m.template { Some(s) => fits(encode_utf8(s)), None => true }),
        (match m.api_key { Some(s) => fits(encode_utf8(s)), None => true }),
        (match m.base_url { Some(s) => fits(encode_utf8(s)), None => true }),
        (match m.compress_base_url { Some(s) => fits(encode_utf8(s)), None => true }),
        (match m.reasoning_effort { Some(s) => fits(encode_utf8(s)), None => true }),
        (match m.compress_reasoning_effort { Some(s) => fits(encode_utf8(s)), None => true }),
{
    reveal(SpecUpdateSettingsRequest::fields_part0);
    let s0 = seg_opt_str(1, m.model);
    let p0 = s0;
    let s1 = seg_opt_str(2, m.compress_model);
    let p1 = p0 + s1;
    let s2 = seg_opt_str(3, m.template);
    let p2 = p1 + s2;
    let s3 = seg_opt_str(4, m.api_key);
    let p3 = p2 + s3;
    let s4 = seg_opt_str(5, m.base_url);
    let p4 = p3 + s4;
    let s5 = seg_opt_str(6, m.compress_base_url);
    let p5 = p4 + s5;
    let s6 = seg_opt_str(7, m.reasoning_effort);
    let p6 = p5 + s6;
    let s7 = seg_opt_str(8, m.compress_reasoning_effort);
    let p7 = p6 + s7;
    lemma_fits_parts(p6, s7);
    lemma_fits_parts(p5, s6);
    lemma_fits_parts(p4, s5);
    lemma_fits_parts(p3, s4);
    lemma_fits_parts(p2, s3);
    lemma_fits_parts(p1, s2);
    lemma_fits_parts(p0, s1);
    match m.model { Some(s) => { lemma_fits_one(1, encode_utf8(s)); }, None => {} }
    match m.compress_model { Some(s) => { lemma_fits_one(2, encode_utf8(s)); }, None => {} }
    match m.template { Some(s) => { lemma_fits_one(3, encode_utf8(s)); }, None => {} }
    match m.api_key { Some(s) => { lemma_fits_one(4, encode_utf8(s)); }, None => {} }
    match m.base_url { Some(s) => { lemma_fits_one(5, encode_utf8(s)); }, None => {} }
    match m.compress_base_url { Some(s) => { lemma_fits_one(6, encode_utf8(s)); }, None => {} }
    match m.reasoning_effort { Some(s) => { lemma_fits_one(7, encode_utf8(s)); }, None => {} }
    match m.compress_reasoning_effort { Some(s) => { lemma_fits_one(8, encode_utf8(s)); }, None => {} }
}

proof fn lemma_wf_update_settings_request_part1(m: SpecUpdateSettingsRequest)
    requires
        fits(encode_fields(m.fields_part1())),
    ensures
        (match m.color_scheme { Some(s) => fits(encode_utf8(s)), None => true }),
        (match m.autoupdate_repo { Some(s) => fits(encode_utf8(s)), None => true }),
        (match m.autoupdate_branch { Some(s) => fits(encode_utf8(s)), None => true }),
        (match m.autoupdate_command { Some(s) => fits(encode_utf8(s)), None => true }),
        (match m.daily_time_zone { Some(s) => fits(encode_utf8(s)), None => true }),
        (match m.daily_update_time { Some(s) => fits(encode_utf8(s)), None => true }),
{
    reveal(SpecUpdateSettingsRequest::fields_part1);
    let s0 = seg_opt_str(9, m.color_scheme);
    let p0 = s0;
    let s1 = opt_u64_seg(10, match m.autoupdate_enabled { Some(b) => Some(if b { 1u64 } else { 0u64 }), None => None });
    let p1 = p0 + s1;
    let s2 = seg_opt_str(11, m.autoupdate_repo);
    let p2 = p1 + s2;
    let s3 = seg_opt_str(12, m.autoupdate_branch);
    let p3 = p2 + s3;
    let s4 = opt_u64_seg(13, m.autoupdate_check_interval_secs);
    let p4 = p3 + s4;
    let s5 = seg_opt_str(14, m.autoupdate_command);
    let p5 = p4 + s5;
    let s6 = seg_opt_str(15, m.daily_time_zone);
    let p6 = p5 + s6;
    let s7 = seg_opt_str(16, m.daily_update_time);
    let p7 = p6 + s7;
    lemma_fits_parts(p6, s7);
    lemma_fits_parts(p5, s6);
    lemma_fits_parts(p4, s5);
    lemma_fits_parts(p3, s4);
    lemma_fits_parts(p2, s3);
    lemma_fits_parts(p1, s2);
    lemma_fits_parts(p0, s1);
    match m.color_scheme { Some(s) => { lemma_fits_one(9, encode_utf8(s)); }, None => {} }
    match m.autoupdate_repo { Some(s) => { lemma_fits_one(11, encode_utf8(s)); }, None => {} }
    match m.autoupdate_branch { Some(s) => { lemma_fits_one(12, encode_utf8(s)); }, None => {} }
    match m.autoupdate_command { Some(s) => { lemma_fits_one(14, encode_utf8(s)); }, None => {} }
    match m.daily_time_zone { Some(s) => { lemma_fits_one(15, encode_utf8(s)); }, None => {} }
    match m.daily_update_time { Some(s) => { lemma_fits_one(16, encode_utf8(s)); }, None => {} }
}

proof fn lemma_wf_update_settings_request_part2(m: SpecUpdateSettingsRequest)
    requires
        fits(encode_fields(m.fields_part2())),
    ensures
        (match m.compression_level { Some(s) => fits(encode_utf8(s)), None => true }),
        (match m.grounding_strategy { Some(s) => fits(encode_utf8(s)), None => true }),
        (match m.image_strategy { Some(s) => fits(encode_utf8(s)), None => true }),
        (match m.search_api_key { Some(s) => fits(encode_utf8(s)), None => true }),
        (match m.search_base_url { Some(s) => fits(encode_utf8(s)), None => true }),
        (match m.image_sources { Some(s) => fits(encode_utf8(s)), None => true }),
        (match m.grounding_model { Some(s) => fits(encode_utf8(s)), None => true }),
{
    reveal(SpecUpdateSettingsRequest::fields_part2);
    let s0 = opt_u64_seg(17, m.max_active_cards);
    let p0 = s0;
    let s1 = seg_opt_str(18, m.compression_level);
    let p1 = p0 + s1;
    let s2 = seg_opt_str(19, m.grounding_strategy);
    let p2 = p1 + s2;
    let s3 = seg_opt_str(20, m.image_strategy);
    let p3 = p2 + s3;
    let s4 = seg_opt_str(21, m.search_api_key);
    let p4 = p3 + s4;
    let s5 = seg_opt_str(22, m.search_base_url);
    let p5 = p4 + s5;
    let s6 = seg_opt_str(23, m.image_sources);
    let p6 = p5 + s6;
    let s7 = seg_opt_str(24, m.grounding_model);
    let p7 = p6 + s7;
    lemma_fits_parts(p6, s7);
    lemma_fits_parts(p5, s6);
    lemma_fits_parts(p4, s5);
    lemma_fits_parts(p3, s4);
    lemma_fits_parts(p2, s3);
    lemma_fits_parts(p1, s2);
    lemma_fits_parts(p0, s1);
    match m.compression_level { Some(s) => { lemma_fits_one(18, encode_utf8(s)); }, None => {} }
    match m.grounding_strategy { Some(s) => { lemma_fits_one(19, encode_utf8(s)); }, None => {} }
    match m.image_strategy { Some(s) => { lemma_fits_one(20, encode_utf8(s)); }, None => {} }
    match m.search_api_key { Some(s) => { lemma_fits_one(21, encode_utf8(s)); }, None => {} }
    match m.search_base_url { Some(s) => { lemma_fits_one(22, encode_utf8(s)); }, None => {} }
    match m.image_sources { Some(s) => { lemma_fits_one(23, encode_utf8(s)); }, None => {} }
    match m.grounding_model { Some(s) => { lemma_fits_one(24, encode_utf8(s)); }, None => {} }
}

proof fn lemma_wf_update_settings_request_part3(m: SpecUpdateSettingsRequest)
    requires
        fits(encode_fields(m.fields_part3())),
    ensures
        (match m.grounding_reasoning_effort { Some(s) => fits(encode_utf8(s)), None => true }),
        (match m.search_provider { Some(s) => fits(encode_utf8(s)), None => true }),
        (match m.scrape_provider { Some(s) => fits(encode_utf8(s)), None => true }),
        (match m.vision_model { Some(s) => fits(encode_utf8(s)), None => true }),
        (match m.transparency { Some(s) => fits(encode_utf8(s)), None => true }),
        (match m.blur_intensity { Some(s) => fits(encode_utf8(s)), None => true }),
{
    reveal(SpecUpdateSettingsRequest::fields_part3);
    let s0 = seg_opt_str(25, m.grounding_reasoning_effort);
    let p0 = s0;
    let s1 = seg_opt_str(26, m.search_provider);
    let p1 = p0 + s1;
    let s2 = seg_opt_str(27, m.scrape_provider);
    let p2 = p1 + s2;
    let s3 = seg_opt_str(28, m.vision_model);
    let p3 = p2 + s3;
    let s4 = seg_opt_str(29, m.transparency);
    let p4 = p3 + s4;
    let s5 = seg_opt_str(30, m.blur_intensity);
    let p5 = p4 + s5;
    lemma_fits_parts(p4, s5);
    lemma_fits_parts(p3, s4);
    lemma_fits_parts(p2, s3);
    lemma_fits_parts(p1, s2);
    lemma_fits_parts(p0, s1);
    match m.grounding_reasoning_effort { Some(s) => { lemma_fits_one(25, encode_utf8(s)); }, None => {} }
    match m.search_provider { Some(s) => { lemma_fits_one(26, encode_utf8(s)); }, None => {} }
    match m.scrape_provider { Some(s) => { lemma_fits_one(27, encode_utf8(s)); }, None => {} }
    match m.vision_model { Some(s) => { lemma_fits_one(28, encode_utf8(s)); }, None => {} }
    match m.transparency { Some(s) => { lemma_fits_one(29, encode_utf8(s)); }, None => {} }
    match m.blur_intensity { Some(s) => { lemma_fits_one(30, encode_utf8(s)); }, None => {} }
}

/// A `UpdateSettingsRequest` whose encoding has a length that fits a varint is well-formed.
pub proof fn lemma_wf_update_settings_request(m: SpecUpdateSettingsRequest)
    requires
        fits(m.encoded()),
    ensures
        m.wf(),
{
    reveal(SpecUpdateSettingsRequest::fields);
    reveal(SpecUpdateSettingsRequest::wf);
    let q0 = m.fields_part0();
    let q1 = q0 + m.fields_part1();
    let q2 = q1 + m.fields_part2();
    let q3 = q2 + m.fields_part3();
    lemma_fits_parts(q2, m.fields_part3());
    lemma_fits_parts(q1, m.fields_part2());
    lemma_fits_parts(q0, m.fields_part1());
    lemma_wf_update_settings_request_part0(m);
    lemma_wf_update_settings_request_part1(m);
    lemma_wf_update_settings_request_part2(m);
    lemma_wf_update_settings_request_part3(m);
}

/// Creates an API key.
#[derive(Clone, Debug, PartialEq, Default)]
pub struct CreateApiKeyRequest {
    pub client_name: String,
}

/// The value of a [`CreateApiKeyRequest`].
pub struct SpecCreateApiKeyRequest {
    pub client_name: Seq<char>,
}

impl View for CreateApiKeyRequest {
    type V = SpecCreateApiKeyRequest;

    open spec fn view(&self) -> SpecCreateApiKeyRequest {
        SpecCreateApiKeyRequest {
            client_name: self.client_name@,
        }
    }
}

impl SpecCreateApiKeyRequest {
    /// Every field at its default.
    pub open spec fn empty() -> SpecCreateApiKeyRequest {
        SpecCreateApiKeyRequest {
            client_name: Seq::empty(),
        }
    }

    /// The fields written for this value, in field-number order.
    #[verifier::opaque]
    pub open spec fn fields(self) -> Seq<SpecField> {
        seg_str(1, self.client_name)
    }

    pub open spec fn encoded(self) -> Seq<u8> {
        encode_fields(self.fields())
    }

    pub open spec fn encode_all(v: Seq<SpecCreateApiKeyRequest>) -> Seq<Seq<u8>> {
        Seq::new(v.len(), |i: int| v[i].encoded())
    }

    /// Every length-delimited payload fits a varint length.
    #[verifier::opaque]
    pub open spec fn wf(self) -> bool {
        fits(encode_utf8(self.client_name))
    }
}

impl Message for SpecCreateApiKeyRequest {
    open spec fn merge(self, f: SpecField) -> Option<SpecCreateApiKeyRequest> {
        if f.number == 1 {
            match as_string(f.value) { Some(s) => Some(SpecCreateApiKeyRequest { client_name: s, ..self }), None => None }
        } else {
            Some(self)
        }
    }
}

impl WireMessage for CreateApiKeyRequest {
    type Spec = SpecCreateApiKeyRequest;

    open spec fn spec_of(&self) -> SpecCreateApiKeyRequest {
        self@
    }

    open spec fn spec_default() -> SpecCreateApiKeyRequest {
        SpecCreateApiKeyRequest::empty()
    }

    fn default_value() -> (r: Self) {
        let r = CreateApiKeyRequest {
            client_name: String::new(),
        };
        r
    }

    fn merge_raw(&mut self, buf: &[u8], f: &RawField) -> (ok: bool) {
        if f.number == 1 {
            match raw_string(buf, f) { Some(s) => { self.client_name = s; true }, None => false }
        } else {
            true
        }
    }
}

impl CreateApiKeyRequest {
    /// Appends the protobuf encoding of this message.
    pub fn encode_to(&self, out: &mut Vec<u8>)
        ensures
            final(out)@ == old(out)@ + self@.encoded(),
    {
        let ghost start = out@;
        proof {
            reveal(SpecCreateApiKeyRequest::fields);
        }
        let ghost s0 = seg_str(1, self@.client_name);
        put_str(out, 1, self.client_name.as_str());
        let ghost p0 = s0;
        assert(out@ =~= start + encode_fields(p0));
        assert(out@ =~= start + self@.encoded());
    }

    /// The protobuf encoding of this message.
    pub fn encode_to_vec(&self) -> (r: Vec<u8>)
        ensures
            r@ == self@.encoded(),
    {
        let mut out: Vec<u8> = Vec::new();
        self.encode_to(&mut out);
        assert(out@ =~= self@.encoded());
        out
    }

    /// Decodes a message; `None` where the bytes are not a valid encoding.
    pub fn decode(buf: &[u8]) -> (r: Option<CreateApiKeyRequest>)
        ensures
            match decode_into(buf@, SpecCreateApiKeyRequest::empty()) {
                Some(m) => r matches Some(v) && v@ == m,
                None => r is None,
            },
    {
        decode_message::<CreateApiKeyRequest>(buf)
    }

    /// Appends one length-delimited field `n` per element of `v`.
    pub fn put_repeated(out: &mut Vec<u8>, n: u32, v: &Vec<CreateApiKeyRequest>)
        requires
            1 <= n <= MAX_FIELD_NUMBER,
        ensures
            final(out)@ == old(out)@ + encode_fields(seg_rep(n, SpecCreateApiKeyRequest::encode_all(Seq::new(v@.len(), |i: int| v@[i]@)))),
    {
        let ghost all = SpecCreateApiKeyRequest::encode_all(Seq::new(v@.len(), |i: int| v@[i]@));
        let mut part: Vec<u8> = Vec::new();
        let mut i: usize = 0;
        proof {
            lemma_seg_rep_full(n, all);
            lemma_encode_empty();
        }
        while i < v.len()
            invariant
                1 <= n <= MAX_FIELD_NUMBER,
                i <= v@.len(),
                all == SpecCreateApiKeyRequest::encode_all(Seq::new(v@.len(), |i: int| v@[i]@)),
                part@ == encode_fields(seg_rep(n, all.take(i as int))),
            decreases v@.len() - i,
        {
            let b = v[i].encode_to_vec();
            proof {
                assert(all.take(i as int).push(b@) =~= all.take(i + 1));
            }
            put_rep_item(&mut part, n, b.as_slice(), Ghost(all.take(i as int)));
            i = i + 1;
        }
        proof {
            lemma_seg_rep_full(n, all);
        }
        append_all(out, &part);
    }
}

/// Decoding the fields of a well-formed `CreateApiKeyRequest` gives it back.
pub proof fn lemma_round_create_api_key_request(m: SpecCreateApiKeyRequest)
    requires
        m.wf(),
    ensures
        merge_fields(m.fields(), SpecCreateApiKeyRequest::empty()) == Some(m),
        fields_wf(m.fields()),
{
    reveal(SpecCreateApiKeyRequest::fields);
    reveal(SpecCreateApiKeyRequest::wf);
    let x0 = SpecCreateApiKeyRequest::empty();
    let x1 = SpecCreateApiKeyRequest { client_name: m.client_name };
    let s0 = seg_str(1, m.client_name);
    assert(merge_fields(s0, x0) == Some(x1) && fields_wf(s0)) by {
        if m.client_name.len() == 0 { assert(m.client_name =~= Seq::<char>::empty()); lemma_seg_empty::<SpecCreateApiKeyRequest>(x0); } else { lemma_seg_len::<SpecCreateApiKeyRequest>(1, encode_utf8(m.client_name), x0); }
    }
    let p0 = s0;
    assert(x1 == m);
}

/// A `CreateApiKeyRequest` whose encoding has a length that fits a varint is well-formed.
pub proof fn lemma_wf_create_api_key_request(m: SpecCreateApiKeyRequest)
    requires
        fits(m.encoded()),
    ensures
        m.wf(),
{
    reveal(SpecCreateApiKeyRequest::fields);
    reveal(SpecCreateApiKeyRequest::wf);
    let s0 = seg_str(1, m.client_name);
    let p0 = s0;
    lemma_fits_seg_str(1, m.client_name);
}

/// Changes the topic settings that are present.
#[derive(Clone, Debug, PartialEq, Default)]
pub struct UpdateTopicRequest {
    pub id: i64,
    pub prompt_template: Option<String>,
    pub daily_card_count: Option<u32>,
    pub daily_time_zone: Option<String>,
    pub daily_update_time: Option<String>,
    pub compression_level: Option<String>,
    pub grounding_strategy: Option<String>,
    pub image_strategy: Option<String>,
}

/// The value of a [`UpdateTopicRequest`].
pub struct SpecUpdateTopicRequest {
    pub id: i64,
    pub prompt_template: Option<Seq<char>>,
    pub daily_card_count: Option<u32>,
    pub daily_time_zone: Option<Seq<char>>,
    pub daily_update_time: Option<Seq<char>>,
    pub compression_level: Option<Seq<char>>,
    pub grounding_strategy: Option<Seq<char>>,
    pub image_strategy: Option<Seq<char>>,
}

impl View for UpdateTopicRequest {
    type V = SpecUpdateTopicRequest;

    open spec fn view(&self) -> SpecUpdateTopicRequest {
        SpecUpdateTopicRequest {
            id: self.id,
            prompt_template: match &self.prompt_template { Some(s) => Some(s@), None => None },
            daily_card_count: self.daily_card_count,
            daily_time_zone: match &self.daily_time_zone { Some(s) => Some(s@), None => None },
            daily_update_time: match &self.daily_update_time { Some(s) => Some(s@), None => None },
            compression_level: match &self.compression_level { Some(s) => Some(s@), None => None },
            grounding_strategy: match &self.grounding_strategy { Some(s) => Some(s@), None => None },
            image_strategy: match &self.image_strategy { Some(s) => Some(s@), None => None },
        }
    }
}

impl SpecUpdateTopicRequest {
    /// Every field at its default.
    pub open spec fn empty() -> SpecUpdateTopicRequest {
        SpecUpdateTopicRequest {
            id: 0i64,
            prompt_template: None,
            daily_card_count: None,
            daily_time_zone: None,
            daily_update_time: None,
            compression_level: None,
            grounding_strategy: None,
            image_strategy: None,
        }
    }

    /// The fields written for this value, in field-number order.
    #[verifier::opaque]
    pub open spec fn fields(self) -> Seq<SpecField> {
        seg_i64(1, self.id)
            + seg_opt_str(2, self.prompt_template)
            + opt_u64_seg(3, match self.daily_card_count { Some(v) => Some(v as u64), None => None })
            + seg_opt_str(4, self.daily_time_zone)
            + seg_opt_str(5, self.daily_update_time)
            + seg_opt_str(6, self.compression_level)
            + seg_opt_str(7, self.grounding_strategy)
            + seg_opt_str(8, self.image_strategy)
    }

    pub open spec fn encoded(self) -> Seq<u8> {
        encode_fields(self.fields())
    }

    pub open spec fn encode_all(v: Seq<SpecUpdateTopicRequest>) -> Seq<Seq<u8>> {
        Seq::new(v.len(), |i: int| v[i].encoded())
    }

    /// Every length-delimited payload fits a varint length.
    #[verifier::opaque]
    pub open spec fn wf(self) -> bool {
        (match self.prompt_template { Some(s) => fits(encode_utf8(s)), None => true })
        && (match self.daily_time_zone { Some(s) => fits(encode_utf8(s)), None => true })
        && (match self.daily_update_time { Some(s) => fits(encode_utf8(s)), None => true })
        && (match self.compression_level { Some(s) => fits(encode_utf8(s)), None => true })
        && (match self.grounding_strategy { Some(s) => fits(encode_utf8(s)), None => true })
        && (match self.image_strategy { Some(s) => fits(encode_utf8(s)), None => true })
    }
}

impl Message for SpecUpdateTopicRequest {
    open spec fn merge(self, f: SpecField) -> Option<SpecUpdateTopicRequest> {
        if f.number == 1 {
            match as_varint(f.value) { Some(v) => Some(SpecUpdateTopicRequest { id: v as i64, ..self }), None => None }
        } else if f.number == 2 {
            match as_string(f.value) { Some(s) => Some(SpecUpdateTopicRequest { prompt_template: Some(s), ..self }), None => None }
        } else if f.number == 3 {
            match as_varint(f.value) { Some(v) => Some(SpecUpdateTopicRequest { daily_card_count: Some(v as u32), ..self }), None => None }
        } else if f.number == 4 {
            match as_string(f.value) { Some(s) => Some(SpecUpdateTopicRequest { daily_time_zone: Some(s), ..self }), None => None }
        } else if f.number == 5 {
            match as_string(f.value) { Some(s) => Some(SpecUpdateTopicRequest { daily_update_time: Some(s), ..self }), None => None }
        } else if f.number == 6 {
            match as_string(f.value) { Some(s) => Some(SpecUpdateTopicRequest { compression_level: Some(s), ..self }), None => None }
        } else if f.number == 7 {
            match as_string(f.value) { Some(s) => Some(SpecUpdateTopicRequest { grounding_strategy: Some(s), ..self }), None => None }
        } else if f.number == 8 {
            match as_string(f.value) { Some(s) => Some(SpecUpdateTopicRequest { image_strategy: Some(s), ..self }), None => None }
        } else {
            Some(self)
        }
    }
}

impl WireMessage for UpdateTopicRequest {
    type Spec = SpecUpdateTopicRequest;

    open spec fn spec_of(&self) -> SpecUpdateTopicRequest {
        self@
    }

    open spec fn spec_default() -> SpecUpdateTopicRequest {
        SpecUpdateTopicRequest::empty()
    }

    fn default_value() -> (r: Self) {
        let r = UpdateTopicRequest {
            id: 0,
            prompt_template: None,
            daily_card_count: None,
            daily_time_zone: None,
            daily_update_time: None,
            compression_level: None,
            grounding_strategy: None,
            image_strategy: None,
        };
        r
    }

    fn merge_raw(&mut self, buf: &[u8], f: &RawField) -> (ok: bool) {
        if f.number == 1 {
            match raw_varint(f) { Some(v) => { self.id = v as i64; true }, None => false }
        } else if f.number == 2 {
            match raw_string(buf, f) { Some(s) => { self.prompt_template = Some(s); true }, None => false }
        } else if f.number == 3 {
            match raw_varint(f) { Some(v) => { self.daily_card_count = Some(v as u32); true }, None => false }
        } else if f.number == 4 {
            match raw_string(buf, f) { Some(s) => { self.daily_time_zone = Some(s); true }, None => false }
        } else if f.number == 5 {
            match raw_string(buf, f) { Some(s) => { self.daily_update_time = Some(s); true }, None => false }
        } else if f.number == 6 {
            match raw_string(buf, f) { Some(s) => { self.compression_level = Some(s); true }, None => false }
        } else if f.number == 7 {
            match raw_string(buf, f) { Some(s) => { self.grounding_strategy = Some(s); true }, None => false }
        } else if f.number == 8 {
            match raw_string(buf, f) { Some(s) => { self.image_strategy = Some(s); true }, None => false }
        } else {
            true
        }
    }
}

impl UpdateTopicRequest {
    /// Appends the protobuf encoding of this message.
    pub fn encode_to(&self, out: &mut Vec<u8>)
        ensures
            final(out)@ == old(out)@ + self@.encoded(),
    {
        let ghost start = out@;
        proof {
            reveal(SpecUpdateTopicRequest::fields);
        }
        let ghost s0 = seg_i64(1, self@.id);
        put_i64(out, 1, self.id);
        let ghost p0 = s0;
        assert(out@ =~= start + encode_fields(p0));
        let ghost s1 = seg_opt_str(2, self@.prompt_template);
        put_opt_str(out, 2, &self.prompt_template);
        let ghost p1 = p0 + s1;
        proof {
            lemma_encode_fields_append(p0, s1);
        }
        assert(out@ =~= start + encode_fields(p1));
        let ghost s2 = opt_u64_seg(3, match self@.daily_card_count { Some(v) => Some(v as u64), None => None });
        put_opt_u64(out, 3, match self.daily_card_count { Some(v) => Some(v as u64), None => None });
        let ghost p2 = p1 + s2;
        proof {
            lemma_encode_fields_append(p1, s2);
        }
        assert(out@ =~= start + encode_fields(p2));
        let ghost s3 = seg_opt_str(4, self@.daily_time_zone);
        put_opt_str(out, 4, &self.daily_time_zone);
        let ghost p3 = p2 + s3;
        proof {
            lemma_encode_fields_append(p2, s3);
        }
        assert(out@ =~= start + encode_fields(p3));
        let ghost s4 = seg_opt_str(5, self@.daily_update_time);
        put_opt_str(out, 5, &self.daily_update_time);
        let ghost p4 = p3 + s4;
        proof {
            lemma_encode_fields_append(p3, s4);
        }
        assert(out@ =~= start + encode_fields(p4));
        let ghost s5 = seg_opt_str(6, self@.compression_level);
        put_opt_str(out, 6, &self.compression_level);
        let ghost p5 = p4 + s5;
        proof {
            lemma_encode_fields_append(p4, s5);
        }
        assert(out@ =~= start + encode_fields(p5));
        let ghost s6 = seg_opt_str(7, self@.grounding_strategy);
        put_opt_str(out, 7, &self.grounding_strategy);
        let ghost p6 = p5 + s6;
        proof {
            lemma_encode_fields_append(p5, s6);
        }
        assert(out@ =~= start + encode_fields(p6));
        let ghost s7 = seg_opt_str(8, self@.image_strategy);
        put_opt_str(out, 8, &self.image_strategy);
        let ghost p7 = p6 + s7;
        proof {
            lemma_encode_fields_append(p6, s7);
        }
        assert(out@ =~= start + encode_fields(p7));
        assert(out@ =~= start + self@.encoded());
    }

    /// The protobuf encoding of this message.
    pub fn encode_to_vec(&self) -> (r: Vec<u8>)
        ensures
            r@ == self@.encoded(),
    {
        let mut out: Vec<u8> = Vec::new();
        self.encode_to(&mut out);
        assert(out@ =~= self@.encoded());
        out
    }

    /// Decodes a message; `None` where the bytes are not a valid encoding.
    pub fn decode(buf: &[u8]) -> (r: Option<UpdateTopicRequest>)
        ensures
            match decode_into(buf@, SpecUpdateTopicRequest::empty()) {
                Some(m) => r matches Some(v) && v@ == m,
                None => r is None,
            },
    {
        decode_message::<UpdateTopicRequest>(buf)
    }

    /// Appends one length-delimited field `n` per element of `v`.
    pub fn put_repeated(out: &mut Vec<u8>, n: u32, v: &Vec<UpdateTopicRequest>)
        requires
            1 <= n <= MAX_FIELD_NUMBER,
        ensures
            final(out)@ == old(out)@ + encode_fields(seg_rep(n, SpecUpdateTopicRequest::encode_all(Seq::new(v@.len(), |i: int| v@[i]@)))),
    {
        let ghost all = SpecUpdateTopicRequest::encode_all(Seq::new(v@.len(), |i: int| v@[i]@));
        let mut part: Vec<u8> = Vec::new();
        let mut i: usize = 0;
        proof {
            lemma_seg_rep_full(n, all);
            lemma_encode_empty();
        }
        while i < v.len()
            invariant
                1 <= n <= MAX_FIELD_NUMBER,
                i <= v@.len(),
                all == SpecUpdateTopicRequest::encode_all(Seq::new(v@.len(), |i: int| v@[i]@)),
                part@ == encode_fields(seg_rep(n, all.take(i as int))),
            decreases v@.len() - i,
        {
            let b = v[i].encode_to_vec();
            proof {
                assert(all.take(i as int).push(b@) =~= all.take(i + 1));
            }
            put_rep_item(&mut part, n, b.as_slice(), Ghost(all.take(i as int)));
            i = i + 1;
        }
        proof {
            lemma_seg_rep_full(n, all);
        }
        append_all(out, &part);
    }
}

/// Decoding the fields of a well-formed `UpdateTopicRequest` gives it back.
pub proof fn lemma_round_update_topic_request(m: SpecUpdateTopicRequest)
    requires
        m.wf(),
    ensures
        merge_fields(m.fields(), SpecUpdateTopicRequest::empty()) == Some(m),
        fields_wf(m.fields()),
{
    reveal(SpecUpdateTopicRequest::fields);
    reveal(SpecUpdateTopicRequest::wf);
    let x0 = SpecUpdateTopicRequest::empty();
    let x1 = SpecUpdateTopicRequest { id: m.id, prompt_template: None, daily_card_count: None, daily_time_zone: None, daily_update_time: None, compression_level: None, grounding_strategy: None, image_strategy: None };
    let s0 = seg_i64(1, m.id);
    assert(merge_fields(s0, x0) == Some(x1) && fields_wf(s0)) by {
        lemma_zero_i64(m.id);
        lemma_seg_u64::<SpecUpdateTopicRequest>(1, m.id as u64, x0);
    }
    let p0 = s0;
    let x2 = SpecUpdateTopicRequest { id: m.id, prompt_template: m.prompt_template, daily_card_count: None, daily_time_zone: None, daily_update_time: None, compression_level: None, grounding_strategy: None, image_strategy: None };
    let s1 = seg_opt_str(2, m.prompt_template);
    assert(merge_fields(s1, x1) == Some(x2) && fields_wf(s1)) by {
        match m.prompt_template { Some(s) => { lemma_seg_len::<SpecUpdateTopicRequest>(2, encode_utf8(s), x1); }, None => { lemma_seg_empty::<SpecUpdateTopicRequest>(x1); } }
    }
    let p1 = p0 + s1;
    lemma_chain::<SpecUpdateTopicRequest>(p0, s1, x0, x1, x2);
    let x3 = SpecUpdateTopicRequest { id: m.id, prompt_template: m.prompt_template, daily_card_count: m.daily_card_count, daily_time_zone: None, daily_update_time: None, compression_level: None, grounding_strategy: None, image_strategy: None };
    let s2 = opt_u64_seg(3, match m.daily_card_count { Some(v) => Some(v as u64), None => None });
    assert(merge_fields(s2, x2) == Some(x3) && fields_wf(s2)) by {
        lemma_seg_opt_u64::<SpecUpdateTopicRequest>(3, match m.daily_card_count { Some(v) => Some(v as u64), None => None }, x2);
    }
    let p2 = p1 + s2;
    lemma_chain::<SpecUpdateTopicRequest>(p1, s2, x0, x2, x3);
    let x4 = SpecUpdateTopicRequest { id: m.id, prompt_template: m.prompt_template, daily_card_count: m.daily_card_count, daily_time_zone: m.daily_time_zone, daily_update_time: None, compression_level: None, grounding_strategy: None, image_strategy: None };
    let s3 = seg_opt_str(4, m.daily_time_zone);
    assert(merge_fields(s3, x3) == Some(x4) && fields_wf(s3)) by {
        match m.daily_time_zone { Some(s) => { lemma_seg_len::<SpecUpdateTopicRequest>(4, encode_utf8(s), x3); }, None => { lemma_seg_empty::<SpecUpdateTopicRequest>(x3); } }
    }
    let p3 = p2 + s3;
    lemma_chain::<SpecUpdateTopicRequest>(p2, s3, x0, x3, x4);
    let x5 = SpecUpdateTopicRequest { id: m.id, prompt_template: m.prompt_template, daily_card_count: m.daily_card_count, daily_time_zone: m.daily_time_zone, daily_update_time: m.daily_update_time, compression_level: None, grounding_strategy: None, image_strategy: None };
    let s4 = seg_opt_str(5, m.daily_update_time);
    assert(merge_fields(s4, x4) == Some(x5) && fields_wf(s4)) by {
        match m.daily_update_time { Some(s) => { lemma_seg_len::<SpecUpdateTopicRequest>(5, encode_utf8(s), x4); }, None => { lemma_seg_empty::<SpecUpdateTopicRequest>(x4); } }
    }
    let p4 = p3 + s4;
    lemma_chain::<SpecUpdateTopicRequest>(p3, s4, x0, x4, x5);
    let x6 = SpecUpdateTopicRequest { id: m.id, prompt_template: m.prompt_template, daily_card_count: m.daily_card_count, daily_time_zone: m.daily_time_zone, daily_update_time: m.daily_update_time, compression_level: m.compression_level, grounding_strategy: None, image_strategy: None };
    let s5 = seg_opt_str(6, m.compression_level);
    assert(merge_fields(s5, x5) == Some(x6) && fields_wf(s5)) by {
        match m.compression_level { Some(s) => { lemma_seg_len::<SpecUpdateTopicRequest>(6, encode_utf8(s), x5); }, None => { lemma_seg_empty::<SpecUpdateTopicRequest>(x5); } }
    }
    let p5 = p4 + s5;
    lemma_chain::<SpecUpdateTopicRequest>(p4, s5, x0, x5, x6);
    let x7 = SpecUpdateTopicRequest { id: m.id, prompt_template: m.prompt_template, daily_card_count: m.daily_card_count, daily_time_zone: m.daily_time_zone, daily_update_time: m.daily_update_time, compression_level: m.compression_level, grounding_strategy: m.grounding_strategy, image_strategy: None };
    let s6 = seg_opt_str(7, m.grounding_strategy);
    assert(merge_fields(s6, x6) == Some(x7) && fields_wf(s6)) by {
        match m.grounding_strategy { Some(s) => { lemma_seg_len::<SpecUpdateTopicRequest>(7, encode_utf8(s), x6); }, None => { lemma_seg_empty::<SpecUpdateTopicRequest>(x6); } }
    }
    let p6 = p5 + s6;
    lemma_chain::<SpecUpdateTopicRequest>(p5, s6, x0, x6, x7);
    let x8 = SpecUpdateTopicRequest { id: m.id, prompt_template: m.prompt_template, daily_card_count: m.daily_card_count, daily_time_zone: m.daily_time_zone, daily_update_time: m.daily_update_time, compression_level: m.compression_level, grounding_strategy: m.grounding_strategy, image_strategy: m.image_strategy };
    let s7 = seg_opt_str(8, m.image_strategy);
    assert(merge_fields(s7, x7) == Some(x8) && fields_wf(s7)) by {
        match m.image_strategy { Some(s) => { lemma_seg_len::<SpecUpdateTopicRequest>(8, encode_utf8(s), x7); }, None => { lemma_seg_empty::<SpecUpdateTopicRequest>(x7); } }
    }
    let p7 = p6 + s7;
    lemma_chain::<SpecUpdateTopicRequest>(p6, s7, x0, x7, x8);
    assert(x8 == m);
}

/// A `UpdateTopicRequest` whose encoding has a length that fits a varint is well-formed.
pub proof fn lemma_wf_update_topic_request(m: SpecUpdateTopicRequest)
    requires
        fits(m.encoded()),
    ensures
        m.wf(),
{
    reveal(SpecUpdateTopicRequest::fields);
    reveal(SpecUpdateTopicRequest::wf);
    let s0 = seg_i64(1, m.id);
    let p0 = s0;
    let s1 = seg_opt_str(2, m.prompt_template);
    let p1 = p0 + s1;
    let s2 = opt_u64_seg(3, match m.daily_card_count { Some(v) => Some(v as u64), None => None });
    let p2 = p1 + s2;
    let s3 = seg_opt_str(4, m.daily_time_zone);
    let p3 = p2 + s3;
    let s4 = seg_opt_str(5, m.daily_update_time);
    let p4 = p3 + s4;
    let s5 = seg_opt_str(6, m.compression_level);
    let p5 = p4 + s5;
    let s6 = seg_opt_str(7, m.grounding_strategy);
    let p6 = p5 + s6;
    let s7 = seg_opt_str(8, m.image_strategy);
    let p7 = p6 + s7;
    lemma_fits_parts(p6, s7);
    lemma_fits_parts(p5, s6);
    lemma_fits_parts(p4, s5);
    lemma_fits_parts(p3, s4);
    lemma_fits_parts(p2, s3);
    lemma_fits_parts(p1, s2);
    lemma_fits_parts(p0, s1);
    match m.prompt_template { Some(s) => { lemma_fits_one(2, encode_utf8(s)); }, None => {} }
    match m.daily_time_zone { Some(s) => { lemma_fits_one(4, encode_utf8(s)); }, None => {} }
    match m.daily_update_time { Some(s) => { lemma_fits_one(5, encode_utf8(s)); }, None => {} }
    match m.compression_level { Some(s) => { lemma_fits_one(6, encode_utf8(s)); }, None => {} }
    match m.grounding_strategy { Some(s) => { lemma_fits_one(7, encode_utf8(s)); }, None => {} }
    match m.image_strategy { Some(s) => { lemma_fits_one(8, encode_utf8(s)); }, None => {} }
}

/// Adds a grounding document.
#[derive(Clone, Debug, PartialEq, Default)]
pub struct AddDocumentRequest {
    pub topic_id_opt: String,
    pub source_type: String,
    pub title: String,
    pub url: String,
    pub content: String,
    pub topic_ids: Vec<i64>,
}

/// The value of a [`AddDocumentRequest`].
pub struct SpecAddDocumentRequest {
    pub topic_id_opt: Seq<char>,
    pub source_type: Seq<char>,
    pub title: Seq<char>,
    pub url: Seq<char>,
    pub content: Seq<char>,
    pub topic_ids: Seq<i64>,
}

impl View for AddDocumentRequest {
    type V = SpecAddDocumentRequest;

    open spec fn view(&self) -> SpecAddDocumentRequest {
        SpecAddDocumentRequest {
            topic_id_opt: self.topic_id_opt@,
            source_type: self.source_type@,
            title: self.title@,
            url: self.url@,
            content: self.content@,
            topic_ids: self.topic_ids@,
        }
    }
}

impl SpecAddDocumentRequest {
    /// Every field at its default.
    pub open spec fn empty() -> SpecAddDocumentRequest {
        SpecAddDocumentRequest {
            topic_id_opt: Seq::empty(),
            source_type: Seq::empty(),
            title: Seq::empty(),
            url: Seq::empty(),
            content: Seq::empty(),
            topic_ids: Seq::empty(),
        }
    }

    /// The fields written for this value, in field-number order.
    #[verifier::opaque]
    pub open spec fn fields(self) -> Seq<SpecField> {
        seg_str(1, self.topic_id_opt)
            + seg_str(2, self.source_type)
            + seg_str(3, self.title)
            + seg_str(4, self.url)
            + seg_str(5, self.content)
            + seg_packed_i64(6, self.topic_ids)
    }

    pub open spec fn encoded(self) -> Seq<u8> {
        encode_fields(self.fields())
    }

    pub open spec fn encode_all(v: Seq<SpecAddDocumentRequest>) -> Seq<Seq<u8>> {
        Seq::new(v.len(), |i: int| v[i].encoded())
    }

    /// Every length-delimited payload fits a varint length.
    #[verifier::opaque]
    pub open spec fn wf(self) -> bool {
        fits(encode_utf8(self.topic_id_opt))
        && fits(encode_utf8(self.source_type))
        && fits(encode_utf8(self.title))
        && fits(encode_utf8(self.url))
        && fits(encode_utf8(self.content))
        && fits(packed_bytes(i64s_as_u64s(self.topic_ids)))
    }
}

impl Message for SpecAddDocumentRequest {
    open spec fn merge(self, f: SpecField) -> Option<SpecAddDocumentRequest> {
        if f.number == 1 {
            match as_string(f.value) { Some(s) => Some(SpecAddDocumentRequest { topic_id_opt: s, ..self }), None => None }
        } else if f.number == 2 {
            match as_string(f.value) { Some(s) => Some(SpecAddDocumentRequest { source_type: s, ..self }), None => None }
        } else if f.number == 3 {
            match as_string(f.value) { Some(s) => Some(SpecAddDocumentRequest { title: s, ..self }), None => None }
        } else if f.number == 4 {
            match as_string(f.value) { Some(s) => Some(SpecAddDocumentRequest { url: s, ..self }), None => None }
        } else if f.number == 5 {
            match as_string(f.value) { Some(s) => Some(SpecAddDocumentRequest { content: s, ..self }), None => None }
        } else if f.number == 6 {
            match as_i64s(f.value) { Some(vs) => Some(SpecAddDocumentRequest { topic_ids: self.topic_ids + vs, ..self }), None => None }
        } else {
            Some(self)
        }
    }
}

impl WireMessage for AddDocumentRequest {
    type Spec = SpecAddDocumentRequest;

    open spec fn spec_of(&self) -> SpecAddDocumentRequest {
        self@
    }

    open spec fn spec_default() -> SpecAddDocumentRequest {
        SpecAddDocumentRequest::empty()
    }

    fn default_value() -> (r: Self) {
        let r = AddDocumentRequest {
            topic_id_opt: String::new(),
            source_type: String::new(),
            title: String::new(),
            url: String::new(),
            content: String::new(),
            topic_ids: Vec::new(),
        };
        r
    }

    fn merge_raw(&mut self, buf: &[u8], f: &RawField) -> (ok: bool) {
        if f.number == 1 {
            match raw_string(buf, f) { Some(s) => { self.topic_id_opt = s; true }, None => false }
        } else if f.number == 2 {
            match raw_string(buf, f) { Some(s) => { self.source_type = s; true }, None => false }
        } else if f.number == 3 {
            match raw_string(buf, f) { Some(s) => { self.title = s; true }, None => false }
        } else if f.number == 4 {
            match raw_string(buf, f) { Some(s) => { self.url = s; true }, None => false }
        } else if f.number == 5 {
            match raw_string(buf, f) { Some(s) => { self.content = s; true }, None => false }
        } else if f.number == 6 {
            match raw_i64s(buf, f) { Some(vs) => { extend_i64(&mut self.topic_ids, &vs); true }, None => false }
        } else {
            true
        }
    }
}

impl AddDocumentRequest {
    /// Appends the protobuf encoding of this message.
    pub fn encode_to(&self, out: &mut Vec<u8>)
        ensures
            final(out)@ == old(out)@ + self@.encoded(),
    {
        let ghost start = out@;
        proof {
            reveal(SpecAddDocumentRequest::fields);
        }
        let ghost s0 = seg_str(1, self@.topic_id_opt);
        put_str(out, 1, self.topic_id_opt.as_str());
        let ghost p0 = s0;
        assert(out@ =~= start + encode_fields(p0));
        let ghost s1 = seg_str(2, self@.source_type);
        put_str(out, 2, self.source_type.as_str());
        let ghost p1 = p0 + s1;
        proof {
            lemma_encode_fields_append(p0, s1);
        }
        assert(out@ =~= start + encode_fields(p1));
        let ghost s2 = seg_str(3, self@.title);
        put_str(out, 3, self.title.as_str());
        let ghost p2 = p1 + s2;
        proof {
            lemma_encode_fields_append(p1, s2);
        }
        assert(out@ =~= start + encode_fields(p2));
        let ghost s3 = seg_str(4, self@.url);
        put_str(out, 4, self.url.as_str());
        let ghost p3 = p2 + s3;
        proof {
            lemma_encode_fields_append(p2, s3);
        }
        assert(out@ =~= start + encode_fields(p3));
        let ghost s4 = seg_str(5, self@.content);
        put_str(out, 5, self.content.as_str());
        let ghost p4 = p3 + s4;
        proof {
            lemma_encode_fields_append(p3, s4);
        }
        assert(out@ =~= start + encode_fields(p4));
        let ghost s5 = seg_packed_i64(6, self@.topic_ids);
        put_packed_i64(out, 6, &self.topic_ids);
        let ghost p5 = p4 + s5;
        proof {
            lemma_encode_fields_append(p4, s5);
        }
        assert(out@ =~= start + encode_fields(p5));
        assert(out@ =~= start + self@.encoded());
    }

    /// The protobuf encoding of this message.
    pub fn encode_to_vec(&self) -> (r: Vec<u8>)
        ensures
            r@ == self@.encoded(),
    {
        let mut out: Vec<u8> = Vec::new();
        self.encode_to(&mut out);
        assert(out@ =~= self@.encoded());
        out
    }

    /// Decodes a message; `None` where the bytes are not a valid encoding.
    pub fn decode(buf: &[u8]) -> (r: Option<AddDocumentRequest>)
        ensures
            match decode_into(buf@, SpecAddDocumentRequest::empty()) {
                Some(m) => r matches Some(v) && v@ == m,
                None => r is None,
            },
    {
        decode_message::<AddDocumentRequest>(buf)
    }

    /// Appends one length-delimited field `n` per element of `v`.
    pub fn put_repeated(out: &mut Vec<u8>, n: u32, v: &Vec<AddDocumentRequest>)
        requires
            1 <= n <= MAX_FIELD_NUMBER,
        ensures
            final(out)@ == old(out)@ + encode_fields(seg_rep(n, SpecAddDocumentRequest::encode_all(Seq::new(v@.len(), |i: int| v@[i]@)))),
    {
        let ghost all = SpecAddDocumentRequest::encode_all(Seq::new(v@.len(), |i: int| v@[i]@));
        let mut part: Vec<u8> = Vec::new();
        let mut i: usize = 0;
        proof {
            lemma_seg_rep_full(n, all);
            lemma_encode_empty();
        }
        while i < v.len()
            invariant
                1 <= n <= MAX_FIELD_NUMBER,
                i <= v@.len(),
                all == SpecAddDocumentRequest::encode_all(Seq::new(v@.len(), |i: int| v@[i]@)),
                part@ == encode_fields(seg_rep(n, all.take(i as int))),
            decreases v@.len() - i,
        {
            let b = v[i].encode_to_vec();
            proof {
                assert(all.take(i as int).push(b@) =~= all.take(i + 1));
            }
            put_rep_item(&mut part, n, b.as_slice(), Ghost(all.take(i as int)));
            i = i + 1;
        }
        proof {
            lemma_seg_rep_full(n, all);
        }
        append_all(out, &part);
    }
}

/// Decoding the fields of a well-formed `AddDocumentRequest` gives it back.
pub proof fn lemma_round_add_document_request(m: SpecAddDocumentRequest)
    requires
        m.wf(),
    ensures
        merge_fields(m.fields(), SpecAddDocumentRequest::empty()) == Some(m),
        fields_wf(m.fields()),
{
    reveal(SpecAddDocumentRequest::fields);
    reveal(SpecAddDocumentRequest::wf);
    let x0 = SpecAddDocumentRequest::empty();
    let x1 = SpecAddDocumentRequest { topic_id_opt: m.topic_id_opt, source_type: Seq::empty(), title: Seq::empty(), url: Seq::empty(), content: Seq::empty(), topic_ids: Seq::empty() };
    let s0 = seg_str(1, m.topic_id_opt);
    assert(merge_fields(s0, x0) == Some(x1) && fields_wf(s0)) by {
        if m.topic_id_opt.len() == 0 { assert(m.topic_id_opt =~= Seq::<char>::empty()); lemma_seg_empty::<SpecAddDocumentRequest>(x0); } else { lemma_seg_len::<SpecAddDocumentRequest>(1, encode_utf8(m.topic_id_opt), x0); }
    }
    let p0 = s0;
    let x2 = SpecAddDocumentRequest { topic_id_opt: m.topic_id_opt, source_type: m.source_type, title: Seq::empty(), url: Seq::empty(), content: Seq::empty(), topic_ids: Seq::empty() };
    let s1 = seg_str(2, m.source_type);
    assert(merge_fields(s1, x1) == Some(x2) && fields_wf(s1)) by {
        if m.source_type.len() == 0 { assert(m.source_type =~= Seq::<char>::empty()); lemma_seg_empty::<SpecAddDocumentRequest>(x1); } else { lemma_seg_len::<SpecAddDocumentRequest>(2, encode_utf8(m.source_type), x1); }
    }
    let p1 = p0 + s1;
    lemma_chain::<SpecAddDocumentRequest>(p0, s1, x0, x1, x2);
    let x3 = SpecAddDocumentRequest { topic_id_opt: m.topic_id_opt, source_type: m.source_type, title: m.title, url: Seq::empty(), content: Seq::empty(), topic_ids: Seq::empty() };
    let s2 = seg_str(3, m.title);
    assert(merge_fields(s2, x2) == Some(x3) && fields_wf(s2)) by {
        if m.title.len() == 0 { assert(m.title =~= Seq::<char>::empty()); lemma_seg_empty::<SpecAddDocumentRequest>(x2); } else { lemma_seg_len::<SpecAddDocumentRequest>(3, encode_utf8(m.title), x2); }
    }
    let p2 = p1 + s2;
    lemma_chain::<SpecAddDocumentRequest>(p1, s2, x0, x2, x3);
    let x4 = SpecAddDocumentRequest { topic_id_opt: m.topic_id_opt, source_type: m.source_type, title: m.title, url: m.url, content: Seq::empty(), topic_ids: Seq::empty() };
    let s3 = seg_str(4, m.url);
    assert(merge_fields(s3, x3) == Some(x4) && fields_wf(s3)) by {
        if m.url.len() == 0 { assert(m.url =~= Seq::<char>::empty()); lemma_seg_empty::<SpecAddDocumentRequest>(x3); } else { lemma_seg_len::<SpecAddDocumentRequest>(4, encode_utf8(m.url), x3); }
    }
    let p3 = p2 + s3;
    lemma_chain::<SpecAddDocumentRequest>(p2, s3, x0, x3, x4);
    let x5 = SpecAddDocumentRequest { topic_id_opt: m.topic_id_opt, source_type: m.source_type, title: m.title, url: m.url, content: m.content, topic_ids: Seq::empty() };
    let s4 = seg_str(5, m.content);
    assert(merge_fields(s4, x4) == Some(x5) && fields_wf(s4)) by {
        if m.content.len() == 0 { assert(m.content =~= Seq::<char>::empty()); lemma_seg_empty::<SpecAddDocumentRequest>(x4); } else { lemma_seg_len::<SpecAddDocumentRequest>(5, encode_utf8(m.content), x4); }
    }
    let p4 = p3 + s4;
    lemma_chain::<SpecAddDocumentRequest>(p3, s4, x0, x4, x5);
    let x6 = SpecAddDocumentRequest { topic_id_opt: m.topic_id_opt, source_type: m.source_type, title: m.title, url: m.url, content: m.content, topic_ids: m.topic_ids };
    let s5 = seg_packed_i64(6, m.topic_ids);
    assert(merge_fields(s5, x5) == Some(x6) && fields_wf(s5)) by {
        if m.topic_ids.len() == 0 { assert(m.topic_ids =~= Seq::<i64>::empty()); lemma_seg_empty::<SpecAddDocumentRequest>(x5); } else { lemma_seg_len::<SpecAddDocumentRequest>(6, packed_bytes(i64s_as_u64s(m.topic_ids)), x5); lemma_i64s_round(m.topic_ids); }
        assert(Seq::<i64>::empty() + m.topic_ids =~= m.topic_ids);
    }
    let p5 = p4 + s5;
    lemma_chain::<SpecAddDocumentRequest>(p4, s5, x0, x5, x6);
    assert(x6 == m);
}

/// A `AddDocumentRequest` whose encoding has a length that fits a varint is well-formed.
pub proof fn lemma_wf_add_document_request(m: SpecAddDocumentRequest)
    requires
        fits(m.encoded()),
    ensures
        m.wf(),
{
    reveal(SpecAddDocumentRequest::fields);
    reveal(SpecAddDocumentRequest::wf);
    let s0 = seg_str(1, m.topic_id_opt);
    let p0 = s0;
    let s1 = seg_str(2, m.source_type);
    let p1 = p0 + s1;
    let s2 = seg_str(3, m.title);
    let p2 = p1 + s2;
    let s3 = seg_str(4, m.url);
    let p3 = p2 + s3;
    let s4 = seg_str(5, m.content);
    let p4 = p3 + s4;
    let s5 = seg_packed_i64(6, m.topic_ids);
    let p5 = p4 + s5;
    lemma_fits_parts(p4, s5);
    lemma_fits_parts(p3, s4);
    lemma_fits_parts(p2, s3);
    lemma_fits_parts(p1, s2);
    lemma_fits_parts(p0, s1);
    lemma_fits_seg_str(1, m.topic_id_opt);
    lemma_fits_seg_str(2, m.source_type);
    lemma_fits_seg_str(3, m.title);
    lemma_fits_seg_str(4, m.url);
    lemma_fits_seg_str(5, m.content);
    lemma_fits_seg_packed(6, m.topic_ids);
}

/// Uploads a document file.
#[derive(Clone, Debug, PartialEq, Default)]
pub struct UploadDocumentRequest {
    pub topic_ids: Vec<i64>,
    pub filename: String,
    pub mime_type: String,
    pub title: String,
    pub data: Vec<u8>,
}

/// The value of a [`UploadDocumentRequest`].
pub struct SpecUploadDocumentRequest {
    pub topic_ids: Seq<i64>,
    pub filename: Seq<char>,
    pub mime_type: Seq<char>,
    pub title: Seq<char>,
    pub data: Seq<u8>,
}

impl View for UploadDocumentRequest {
    type V = SpecUploadDocumentRequest;

    open spec fn view(&self) -> SpecUploadDocumentRequest {
        SpecUploadDocumentRequest {
            topic_ids: self.topic_ids@,
            filename: self.filename@,
            mime_type: self.mime_type@,
            title: self.title@,
            data: self.data@,
        }
    }
}

impl SpecUploadDocumentRequest {
    /// Every field at its default.
    pub open spec fn empty() -> SpecUploadDocumentRequest {
        SpecUploadDocumentRequest {
            topic_ids: Seq::empty(),
            filename: Seq::empty(),
            mime_type: Seq::empty(),
            title: Seq::empty(),
            data: Seq::empty(),
        }
    }

    /// The fields written for this value, in field-number order.
    #[verifier::opaque]
    pub open spec fn fields(self) -> Seq<SpecField> {
        seg_packed_i64(1, self.topic_ids)
            + seg_str(2, self.filename)
            + seg_str(3, self.mime_type)
            + seg_str(4, self.title)
            + seg_bytes(5, self.data)
    }

    pub open spec fn encoded(self) -> Seq<u8> {
        encode_fields(self.fields())
    }

    pub open spec fn encode_all(v: Seq<SpecUploadDocumentRequest>) -> Seq<Seq<u8>> {
        Seq::new(v.len(), |i: int| v[i].encoded())
    }

    /// Every length-delimited payload fits a varint length.
    #[verifier::opaque]
    pub open spec fn wf(self) -> bool {
        fits(packed_bytes(i64s_as_u64s(self.topic_ids)))
        && fits(encode_utf8(self.filename))
        && fits(encode_utf8(self.mime_type))
        && fits(encode_utf8(self.title))
        && fits(self.data)
    }
}

impl Message for SpecUploadDocumentRequest {
    open spec fn merge(self, f: SpecField) -> Option<SpecUploadDocumentRequest> {
        if f.number == 1 {
            match as_i64s(f.value) { Some(vs) => Some(SpecUploadDocumentRequest { topic_ids: self.topic_ids + vs, ..self }), None => None }
        } else if f.number == 2 {
            match as_string(f.value) { Some(s) => Some(SpecUploadDocumentRequest { filename: s, ..self }), None => None }
        } else if f.number == 3 {
            match as_string(f.value) { Some(s) => Some(SpecUploadDocumentRequest { mime_type: s, ..self }), None => None }
        } else if f.number == 4 {
            match as_string(f.value) { Some(s) => Some(SpecUploadDocumentRequest { title: s, ..self }), None => None }
        } else if f.number == 5 {
            match as_bytes(f.value) { Some(b) => Some(SpecUploadDocumentRequest { data: b, ..self }), None => None }
        } else {
            Some(self)
        }
    }
}

impl WireMessage for UploadDocumentRequest {
    type Spec = SpecUploadDocumentRequest;

    open spec fn spec_of(&self) -> SpecUploadDocumentRequest {
        self@
    }

    open spec fn spec_default() -> SpecUploadDocumentRequest {
        SpecUploadDocumentRequest::empty()
    }

    fn default_value() -> (r: Self) {
        let r = UploadDocumentRequest {
            topic_ids: Vec::new(),
            filename: String::new(),
            mime_type: String::new(),
            title: String::new(),
            data: Vec::new(),
        };
        r
    }

    fn merge_raw(&mut self, buf: &[u8], f: &RawField) -> (ok: bool) {
        if f.number == 1 {
            match raw_i64s(buf, f) { Some(vs) => { extend_i64(&mut self.topic_ids, &vs); true }, None => false }
        } else if f.number == 2 {
            match raw_string(buf, f) { Some(s) => { self.filename = s; true }, None => false }
        } else if f.number == 3 {
            match raw_string(buf, f) { Some(s) => { self.mime_type = s; true }, None => false }
        } else if f.number == 4 {
            match raw_string(buf, f) { Some(s) => { self.title = s; true }, None => false }
        } else if f.number == 5 {
            match raw_bytes(buf, f) { Some(b) => { self.data = b; true }, None => false }
        } else {
            true
        }
    }
}

impl UploadDocumentRequest {
    /// Appends the protobuf encoding of this message.
    pub fn encode_to(&self, out: &mut Vec<u8>)
        ensures
            final(out)@ == old(out)@ + self@.encoded(),
    {
        let ghost start = out@;
        proof {
            reveal(SpecUploadDocumentRequest::fields);
        }
        let ghost s0 = seg_packed_i64(1, self@.topic_ids);
        put_packed_i64(out, 1, &self.topic_ids);
        let ghost p0 = s0;
        assert(out@ =~= start + encode_fields(p0));
        let ghost s1 = seg_str(2, self@.filename);
        put_str(out, 2, self.filename.as_str());
        let ghost p1 = p0 + s1;
        proof {
            lemma_encode_fields_append(p0, s1);
        }
        assert(out@ =~= start + encode_fields(p1));
        let ghost s2 = seg_str(3, self@.mime_type);
        put_str(out, 3, self.mime_type.as_str());
        let ghost p2 = p1 + s2;
        proof {
            lemma_encode_fields_append(p1, s2);
        }
        assert(out@ =~= start + encode_fields(p2));
        let ghost s3 = seg_str(4, self@.title);
        put_str(out, 4, self.title.as_str());
        let ghost p3 = p2 + s3;
        proof {
            lemma_encode_fields_append(p2, s3);
        }
        assert(out@ =~= start + encode_fields(p3));
        let ghost s4 = seg_bytes(5, self@.data);
        put_bytes(out, 5, self.data.as_slice());
        let ghost p4 = p3 + s4;
        proof {
            lemma_encode_fields_append(p3, s4);
        }
        assert(out@ =~= start + encode_fields(p4));
        assert(out@ =~= start + self@.encoded());
    }

    /// The protobuf encoding of this message.
    pub fn encode_to_vec(&self) -> (r: Vec<u8>)
        ensures
            r@ == self@.encoded(),
    {
        let mut out: Vec<u8> = Vec::new();
        self.encode_to(&mut out);
        assert(out@ =~= self@.encoded());
        out
    }

    /// Decodes a message; `None` where the bytes are not a valid encoding.
    pub fn decode(buf: &[u8]) -> (r: Option<UploadDocumentRequest>)
        ensures
            match decode_into(buf@, SpecUploadDocumentRequest::empty()) {
                Some(m) => r matches Some(v) && v@ == m,
                None => r is None,
            },
    {
        decode_message::<UploadDocumentRequest>(buf)
    }

    /// Appends one length-delimited field `n` per element of `v`.
    pub fn put_repeated(out: &mut Vec<u8>, n: u32, v: &Vec<UploadDocumentRequest>)
        requires
            1 <= n <= MAX_FIELD_NUMBER,
        ensures
            final(out)@ == old(out)@ + encode_fields(seg_rep(n, SpecUploadDocumentRequest::encode_all(Seq::new(v@.len(), |i: int| v@[i]@)))),
    {
        let ghost all = SpecUploadDocumentRequest::encode_all(Seq::new(v@.len(), |i: int| v@[i]@));
        let mut part: Vec<u8> = Vec::new();
        let mut i: usize = 0;
        proof {
            lemma_seg_rep_full(n, all);
            lemma_encode_empty();
        }
        while i < v.len()
            invariant
                1 <= n <= MAX_FIELD_NUMBER,
                i <= v@.len(),
                all == SpecUploadDocumentRequest::encode_all(Seq::new(v@.len(), |i: int| v@[i]@)),
                part@ == encode_fields(seg_rep(n, all.take(i as int))),
            decreases v@.len() - i,
        {
            let b = v[i].encode_to_vec();
            proof {
                assert(all.take(i as int).push(b@) =~= all.take(i + 1));
            }
            put_rep_item(&mut part, n, b.as_slice(), Ghost(all.take(i as int)));
            i = i + 1;
        }
        proof {
            lemma_seg_rep_full(n, all);
        }
        append_all(out, &part);
    }
}

/// Decoding the fields of a well-formed `UploadDocumentRequest` gives it back.
pub proof fn lemma_round_upload_document_request(m: SpecUploadDocumentRequest)
    requires
        m.wf(),
    ensures
        merge_fields(m.fields(), SpecUploadDocumentRequest::empty()) == Some(m),
        fields_wf(m.fields()),
{
    reveal(SpecUploadDocumentRequest::fields);
    reveal(SpecUploadDocumentRequest::wf);
    let x0 = SpecUploadDocumentRequest::empty();
    let x1 = SpecUploadDocumentRequest { topic_ids: m.topic_ids, filename: Seq::empty(), mime_type: Seq::empty(), title: Seq::empty(), data: Seq::empty() };
    let s0 = seg_packed_i64(1, m.topic_ids);
    assert(merge_fields(s0, x0) == Some(x1) && fields_wf(s0)) by {
        if m.topic_ids.len() == 0 { assert(m.topic_ids =~= Seq::<i64>::empty()); lemma_seg_empty::<SpecUploadDocumentRequest>(x0); } else { lemma_seg_len::<SpecUploadDocumentRequest>(1, packed_bytes(i64s_as_u64s(m.topic_ids)), x0); lemma_i64s_round(m.topic_ids); }
        assert(Seq::<i64>::empty() + m.topic_ids =~= m.topic_ids);
    }
    let p0 = s0;
    let x2 = SpecUploadDocumentRequest { topic_ids: m.topic_ids, filename: m.filename, mime_type: Seq::empty(), title: Seq::empty(), data: Seq::empty() };
    let s1 = seg_str(2, m.filename);
    assert(merge_fields(s1, x1) == Some(x2) && fields_wf(s1)) by {
        if m.filename.len() == 0 { assert(m.filename =~= Seq::<char>::empty()); lemma_seg_empty::<SpecUploadDocumentRequest>(x1); } else { lemma_seg_len::<SpecUploadDocumentRequest>(2, encode_utf8(m.filename), x1); }
    }
    let p1 = p0 + s1;
    lemma_chain::<SpecUploadDocumentRequest>(p0, s1, x0, x1, x2);
    let x3 = SpecUploadDocumentRequest { topic_ids: m.topic_ids, filename: m.filename, mime_type: m.mime_type, title: Seq::empty(), data: Seq::empty() };
    let s2 = seg_str(3, m.mime_type);
    assert(merge_fields(s2, x2) == Some(x3) && fields_wf(s2)) by {
        if m.mime_type.len() == 0 { assert(m.mime_type =~= Seq::<char>::empty()); lemma_seg_empty::<SpecUploadDocumentRequest>(x2); } else { lemma_seg_len::<SpecUploadDocumentRequest>(3, encode_utf8(m.mime_type), x2); }
    }
    let p2 = p1 + s2;
    lemma_chain::<SpecUploadDocumentRequest>(p1, s2, x0, x2, x3);
    let x4 = SpecUploadDocumentRequest { topic_ids: m.topic_ids, filename: m.filename, mime_type: m.mime_type, title: m.title, data: Seq::empty() };
    let s3 = seg_str(4, m.title);
    assert(merge_fields(s3, x3) == Some(x4) && fields_wf(s3)) by {
        if m.title.len() == 0 { assert(m.title =~= Seq::<char>::empty()); lemma_seg_empty::<SpecUploadDocumentRequest>(x3); } else { lemma_seg_len::<SpecUploadDocumentRequest>(4, encode_utf8(m.title), x3); }
    }
    let p3 = p2 + s3;
    lemma_chain::<SpecUploadDocumentRequest>(p2, s3, x0, x3, x4);
    let x5 = SpecUploadDocumentRequest { topic_ids: m.topic_ids, filename: m.filename, mime_type: m.mime_type, title: m.title, data: m.data };
    let s4 = seg_bytes(5, m.data);
    assert(merge_fields(s4, x4) == Some(x5) && fields_wf(s4)) by {
        if m.data.len() == 0 { assert(m.data =~= Seq::<u8>::empty()); lemma_seg_empty::<SpecUploadDocumentRequest>(x4); } else { lemma_seg_len::<SpecUploadDocumentRequest>(5, m.data, x4); }
    }
    let p4 = p3 + s4;
    lemma_chain::<SpecUploadDocumentRequest>(p3, s4, x0, x4, x5);
    assert(x5 == m);
}

/// A `UploadDocumentRequest` whose encoding has a length that fits a varint is well-formed.
pub proof fn lemma_wf_upload_document_request(m: SpecUploadDocumentRequest)
    requires
        fits(m.encoded()),
    ensures
        m.wf(),
{
    reveal(SpecUploadDocumentRequest::fields);
    reveal(SpecUploadDocumentRequest::wf);
    let s0 = seg_packed_i64(1, m.topic_ids);
    let p0 = s0;
    let s1 = seg_str(2, m.filename);
    let p1 = p0 + s1;
    let s2 = seg_str(3, m.mime_type);
    let p2 = p1 + s2;
    let s3 = seg_str(4, m.title);
    let p3 = p2 + s3;
    let s4 = seg_bytes(5, m.data);
    let p4 = p3 + s4;
    lemma_fits_parts(p3, s4);
    lemma_fits_parts(p2, s3);
    lemma_fits_parts(p1, s2);
    lemma_fits_parts(p0, s1);
    lemma_fits_seg_packed(1, m.topic_ids);
    lemma_fits_seg_str(2, m.filename);
    lemma_fits_seg_str(3, m.mime_type);
    lemma_fits_seg_str(4, m.title);
    lemma_fits_seg_bytes(5, m.data);
}

/// Links or unlinks a document and a topic.
#[derive(Clone, Debug, PartialEq, Default)]
pub struct AttachDocumentTopicRequest {
    pub document_id: i64,
    pub topic_id: i64,
}

/// The value of a [`AttachDocumentTopicRequest`].
pub struct SpecAttachDocumentTopicRequest {
    pub document_id: i64,
    pub topic_id: i64,
}

impl View for AttachDocumentTopicRequest {
    type V = SpecAttachDocumentTopicRequest;

    open spec fn view(&self) -> SpecAttachDocumentTopicRequest {
        SpecAttachDocumentTopicRequest {
            document_id: self.document_id,
            topic_id: self.topic_id,
        }
    }
}

impl SpecAttachDocumentTopicRequest {
    /// Every field at its default.
    pub open spec fn empty() -> SpecAttachDocumentTopicRequest {
        SpecAttachDocumentTopicRequest {
            document_id: 0i64,
            topic_id: 0i64,
        }
    }

    /// The fields written for this value, in field-number order.
    #[verifier::opaque]
    pub open spec fn fields(self) -> Seq<SpecField> {
        seg_i64(1, self.document_id)
            + seg_i64(2, self.topic_id)
    }

    pub open spec fn encoded(self) -> Seq<u8> {
        encode_fields(self.fields())
    }

    pub open spec fn encode_all(v: Seq<SpecAttachDocumentTopicRequest>) -> Seq<Seq<u8>> {
        Seq::new(v.len(), |i: int| v[i].encoded())
    }

    /// Every length-delimited payload fits a varint length.
    #[verifier::opaque]
    pub open spec fn wf(self) -> bool {
        true
    }
}

impl Message for SpecAttachDocumentTopicRequest {
    open spec fn merge(self, f: SpecField) -> Option<SpecAttachDocumentTopicRequest> {
        if f.number == 1 {
            match as_varint(f.value) { Some(v) => Some(SpecAttachDocumentTopicRequest { document_id: v as i64, ..self }), None => None }
        } else if f.number == 2 {
            match as_varint(f.value) { Some(v) => Some(SpecAttachDocumentTopicRequest { topic_id: v as i64, ..self }), None => None }
        } else {
            Some(self)
        }
    }
}

impl WireMessage for AttachDocumentTopicRequest {
    type Spec = SpecAttachDocumentTopicRequest;

    open spec fn spec_of(&self) -> SpecAttachDocumentTopicRequest {
        self@
    }

    open spec fn spec_default() -> SpecAttachDocumentTopicRequest {
        SpecAttachDocumentTopicRequest::empty()
    }

    fn default_value() -> (r: Self) {
        let r = AttachDocumentTopicRequest {
            document_id: 0,
            topic_id: 0,
        };
        r
    }

    fn merge_raw(&mut self, buf: &[u8], f: &RawField) -> (ok: bool) {
        if f.number == 1 {
            match raw_varint(f) { Some(v) => { self.document_id = v as i64; true }, None => false }
        } else if f.number == 2 {
            match raw_varint(f) { Some(v) => { self.topic_id = v as i64; true }, None => false }
        } else {
            true
        }
    }
}

impl AttachDocumentTopicRequest {
    /// Appends the protobuf encoding of this message.
    pub fn encode_to(&self, out: &mut Vec<u8>)
        ensures
            final(out)@ == old(out)@ + self@.encoded(),
    {
        let ghost start = out@;
        proof {
            reveal(SpecAttachDocumentTopicRequest::fields);
        }
        let ghost s0 = seg_i64(1, self@.document_id);
        put_i64(out, 1, self.document_id);
        let ghost p0 = s0;
        assert(out@ =~= start + encode_fields(p0));
        let ghost s1 = seg_i64(2, self@.topic_id);
        put_i64(out, 2, self.topic_id);
        let ghost p1 = p0 + s1;
        proof {
            lemma_encode_fields_append(p0, s1);
        }
        assert(out@ =~= start + encode_fields(p1));
        assert(out@ =~= start + self@.encoded());
    }

    /// The protobuf encoding of this message.
    pub fn encode_to_vec(&self) -> (r: Vec<u8>)
        ensures
            r@ == self@.encoded(),
    {
        let mut out: Vec<u8> = Vec::new();
        self.encode_to(&mut out);
        assert(out@ =~= self@.encoded());
        out
    }

    /// Decodes a message; `None` where the bytes are not a valid encoding.
    pub fn decode(buf: &[u8]) -> (r: Option<AttachDocumentTopicRequest>)
        ensures
            match decode_into(buf@, SpecAttachDocumentTopicRequest::empty()) {
                Some(m) => r matches Some(v) && v@ == m,
                None => r is None,
            },
    {
        decode_message::<AttachDocumentTopicRequest>(buf)
    }

    /// Appends one length-delimited field `n` per element of `v`.
    pub fn put_repeated(out: &mut Vec<u8>, n: u32, v: &Vec<AttachDocumentTopicRequest>)
        requires
            1 <= n <= MAX_FIELD_NUMBER,
        ensures
            final(out)@ == old(out)@ + encode_fields(seg_rep(n, SpecAttachDocumentTopicRequest::encode_all(Seq::new(v@.len(), |i: int| v@[i]@)))),
    {
        let ghost all = SpecAttachDocumentTopicRequest::encode_all(Seq::new(v@.len(), |i: int| v@[i]@));
        let mut part: Vec<u8> = Vec::new();
        let mut i: usize = 0;
        proof {
            lemma_seg_rep_full(n, all);
            lemma_encode_empty();
        }
        while i < v.len()
            invariant
                1 <= n <= MAX_FIELD_NUMBER,
                i <= v@.len(),
                all == SpecAttachDocumentTopicRequest::encode_all(Seq::new(v@.len(), |i: int| v@[i]@)),
                part@ == encode_fields(seg_rep(n, all.take(i as int))),
            decreases v@.len() - i,
        {
            let b = v[i].encode_to_vec();
            proof {
                assert(all.take(i as int).push(b@) =~= all.take(i + 1));
            }
            put_rep_item(&mut part, n, b.as_slice(), Ghost(all.take(i as int)));
            i = i + 1;
        }
        proof {
            lemma_seg_rep_full(n, all);
        }
        append_all(out, &part);
    }
}

/// Decoding the fields of a well-formed `AttachDocumentTopicRequest` gives it back.
pub proof fn lemma_round_attach_document_topic_request(m: SpecAttachDocumentTopicRequest)
    requires
        m.wf(),
    ensures
        merge_fields(m.fields(), SpecAttachDocumentTopicRequest::empty()) == Some(m),
        fields_wf(m.fields()),
{
    reveal(SpecAttachDocumentTopicRequest::fields);
    reveal(SpecAttachDocumentTopicRequest::wf);
    let x0 = SpecAttachDocumentTopicRequest::empty();
    let x1 = SpecAttachDocumentTopicRequest { document_id: m.document_id, topic_id: 0i64 };
    let s0 = seg_i64(1, m.document_id);
    assert(merge_fields(s0, x0) == Some(x1) && fields_wf(s0)) by {
        lemma_zero_i64(m.document_id);
        lemma_seg_u64::<SpecAttachDocumentTopicRequest>(1, m.document_id as u64, x0);
    }
    let p0 = s0;
    let x2 = SpecAttachDocumentTopicRequest { document_id: m.document_id, topic_id: m.topic_id };
    let s1 = seg_i64(2, m.topic_id);
    assert(merge_fields(s1, x1) == Some(x2) && fields_wf(s1)) by {
        lemma_zero_i64(m.topic_id);
        lemma_seg_u64::<SpecAttachDocumentTopicRequest>(2, m.topic_id as u64, x1);
    }
    let p1 = p0 + s1;
    lemma_chain::<SpecAttachDocumentTopicRequest>(p0, s1, x0, x1, x2);
    assert(x2 == m);
}

/// A `AttachDocumentTopicRequest` whose encoding has a length that fits a varint is well-formed.
pub proof fn lemma_wf_attach_document_topic_request(m: SpecAttachDocumentTopicRequest)
    requires
        fits(m.encoded()),
    ensures
        m.wf(),
{
    reveal(SpecAttachDocumentTopicRequest::fields);
    reveal(SpecAttachDocumentTopicRequest::wf);
}

/// Lists the links of a web page.
#[derive(Clone, Debug, PartialEq, Default)]
pub struct ExploreLinkRequest {
    pub url: String,
}

/// The value of a [`ExploreLinkRequest`].
pub struct SpecExploreLinkRequest {
    pub url: Seq<char>,
}

impl View for ExploreLinkRequest {
    type V = SpecExploreLinkRequest;

    open spec fn view(&self) -> SpecExploreLinkRequest {
        SpecExploreLinkRequest {
            url: self.url@,
        }
    }
}

impl SpecExploreLinkRequest {
    /// Every field at its default.
    pub open spec fn empty() -> SpecExploreLinkRequest {
        SpecExploreLinkRequest {
            url: Seq::empty(),
        }
    }

    /// The fields written for this value, in field-number order.
    #[verifier::opaque]
    pub open spec fn fields(self) -> Seq<SpecField> {
        seg_str(1, self.url)
    }

    pub open spec fn encoded(self) -> Seq<u8> {
        encode_fields(self.fields())
    }

    pub open spec fn encode_all(v: Seq<SpecExploreLinkRequest>) -> Seq<Seq<u8>> {
        Seq::new(v.len(), |i: int| v[i].encoded())
    }

    /// Every length-delimited payload fits a varint length.
    #[verifier::opaque]
    pub open spec fn wf(self) -> bool {
        fits(encode_utf8(self.url))
    }
}

impl Message for SpecExploreLinkRequest {
    open spec fn merge(self, f: SpecField) -> Option<SpecExploreLinkRequest> {
        if f.number == 1 {
            match as_string(f.value) { Some(s) => Some(SpecExploreLinkRequest { url: s, ..self }), None => None }
        } else {
            Some(self)
        }
    }
}

impl WireMessage for ExploreLinkRequest {
    type Spec = SpecExploreLinkRequest;

    open spec fn spec_of(&self) -> SpecExploreLinkRequest {
        self@
    }

    open spec fn spec_default() -> SpecExploreLinkRequest {
        SpecExploreLinkRequest::empty()
    }

    fn default_value() -> (r: Self) {
        let r = ExploreLinkRequest {
            url: String::new(),
        };
        r
    }

    fn merge_raw(&mut self, buf: &[u8], f: &RawField) -> (ok: bool) {
        if f.number == 1 {
            match raw_string(buf, f) { Some(s) => { self.url = s; true }, None => false }
        } else {
            true
        }
    }
}

impl ExploreLinkRequest {
    /// Appends the protobuf encoding of this message.
    pub fn encode_to(&self, out: &mut Vec<u8>)
        ensures
            final(out)@ == old(out)@ + self@.encoded(),
    {
        let ghost start = out@;
        proof {
            reveal(SpecExploreLinkRequest::fields);
        }
        let ghost s0 = seg_str(1, self@.url);
        put_str(out, 1, self.url.as_str());
        let ghost p0 = s0;
        assert(out@ =~= start + encode_fields(p0));
        assert(out@ =~= start + self@.encoded());
    }

    /// The protobuf encoding of this message.
    pub fn encode_to_vec(&self) -> (r: Vec<u8>)
        ensures
            r@ == self@.encoded(),
    {
        let mut out: Vec<u8> = Vec::new();
        self.encode_to(&mut out);
        assert(out@ =~= self@.encoded());
        out
    }

    /// Decodes a message; `None` where the bytes are not a valid encoding.
    pub fn decode(buf: &[u8]) -> (r: Option<ExploreLinkRequest>)
        ensures
            match decode_into(buf@, SpecExploreLinkRequest::empty()) {
                Some(m) => r matches Some(v) && v@ == m,
                None => r is None,
            },
    {
        decode_message::<ExploreLinkRequest>(buf)
    }

    /// Appends one length-delimited field `n` per element of `v`.
    pub fn put_repeated(out: &mut Vec<u8>, n: u32, v: &Vec<ExploreLinkRequest>)
        requires
            1 <= n <= MAX_FIELD_NUMBER,
        ensures
            final(out)@ == old(out)@ + encode_fields(seg_rep(n, SpecExploreLinkRequest::encode_all(Seq::new(v@.len(), |i: int| v@[i]@)))),
    {
        let ghost all = SpecExploreLinkRequest::encode_all(Seq::new(v@.len(), |i: int| v@[i]@));
        let mut part: Vec<u8> = Vec::new();
        let mut i: usize = 0;
        proof {
            lemma_seg_rep_full(n, all);
            lemma_encode_empty();
        }
        while i < v.len()
            invariant
                1 <= n <= MAX_FIELD_NUMBER,
                i <= v@.len(),
                all == SpecExploreLinkRequest::encode_all(Seq::new(v@.len(), |i: int| v@[i]@)),
                part@ == encode_fields(seg_rep(n, all.take(i as int))),
            decreases v@.len() - i,
        {
            let b = v[i].encode_to_vec();
            proof {
                assert(all.take(i as int).push(b@) =~= all.take(i + 1));
            }
            put_rep_item(&mut part, n, b.as_slice(), Ghost(all.take(i as int)));
            i = i + 1;
        }
        proof {
            lemma_seg_rep_full(n, all);
        }
        append_all(out, &part);
    }
}

/// Decoding the fields of a well-formed `ExploreLinkRequest` gives it back.
pub proof fn lemma_round_explore_link_request(m: SpecExploreLinkRequest)
    requires
        m.wf(),
    ensures
        merge_fields(m.fields(), SpecExploreLinkRequest::empty()) == Some(m),
        fields_wf(m.fields()),
{
    reveal(SpecExploreLinkRequest::fields);
    reveal(SpecExploreLinkRequest::wf);
    let x0 = SpecExploreLinkRequest::empty();
    let x1 = SpecExploreLinkRequest { url: m.url };
    let s0 = seg_str(1, m.url);
    assert(merge_fields(s0, x0) == Some(x1) && fields_wf(s0)) by {
        if m.url.len() == 0 { assert(m.url =~= Seq::<char>::empty()); lemma_seg_empty::<SpecExploreLinkRequest>(x0); } else { lemma_seg_len::<SpecExploreLinkRequest>(1, encode_utf8(m.url), x0); }
    }
    let p0 = s0;
    assert(x1 == m);
}

/// A `ExploreLinkRequest` whose encoding has a length that fits a varint is well-formed.
pub proof fn lemma_wf_explore_link_request(m: SpecExploreLinkRequest)
    requires
        fits(m.encoded()),
    ensures
        m.wf(),
{
    reveal(SpecExploreLinkRequest::fields);
    reveal(SpecExploreLinkRequest::wf);
    let s0 = seg_str(1, m.url);
    let p0 = s0;
    lemma_fits_seg_str(1, m.url);
}

/// Adds an image to the local pool.
#[derive(Clone, Debug, PartialEq, Default)]
pub struct AddPoolImageRequest {
    pub image_data: String,
    pub name: String,
    pub description: String,
}

/// The value of a [`AddPoolImageRequest`].
pub struct SpecAddPoolImageRequest {
    pub image_data: Seq<char>,
    pub name: Seq<char>,
    pub description: Seq<char>,
}

impl View for AddPoolImageRequest {
    type V = SpecAddPoolImageRequest;

    open spec fn view(&self) -> SpecAddPoolImageRequest {
        SpecAddPoolImageRequest {
            image_data: self.image_data@,
            name: self.name@,
            description: self.description@,
        }
    }
}

impl SpecAddPoolImageRequest {
    /// Every field at its default.
    pub open spec fn empty() -> SpecAddPoolImageRequest {
        SpecAddPoolImageRequest {
            image_data: Seq::empty(),
            name: Seq::empty(),
            description: Seq::empty(),
        }
    }

    /// The fields written for this value, in field-number order.
    #[verifier::opaque]
    pub open spec fn fields(self) -> Seq<SpecField> {
        seg_str(1, self.image_data)
            + seg_str(2, self.name)
            + seg_str(3, self.description)
    }

    pub open spec fn encoded(self) -> Seq<u8> {
        encode_fields(self.fields())
    }

    pub open spec fn encode_all(v: Seq<SpecAddPoolImageRequest>) -> Seq<Seq<u8>> {
        Seq::new(v.len(), |i: int| v[i].encoded())
    }

    /// Every length-delimited payload fits a varint length.
    #[verifier::opaque]
    pub open spec fn wf(self) -> bool {
        fits(encode_utf8(self.image_data))
        && fits(encode_utf8(self.name))
        && fits(encode_utf8(self.description))
    }
}

impl Message for SpecAddPoolImageRequest {
    open spec fn merge(self, f: SpecField) -> Option<SpecAddPoolImageRequest> {
        if f.number == 1 {
            match as_string(f.value) { Some(s) => Some(SpecAddPoolImageRequest { image_data: s, ..self }), None => None }
        } else if f.number == 2 {
            match as_string(f.value) { Some(s) => Some(SpecAddPoolImageRequest { name: s, ..self }), None => None }
        } else if f.number == 3 {
            match as_string(f.value) { Some(s) => Some(SpecAddPoolImageRequest { description: s, ..self }), None => None }
        } else {
            Some(self)
        }
    }
}

impl WireMessage for AddPoolImageRequest {
    type Spec = SpecAddPoolImageRequest;

    open spec fn spec_of(&self) -> SpecAddPoolImageRequest {
        self@
    }

    open spec fn spec_default() -> SpecAddPoolImageRequest {
        SpecAddPoolImageRequest::empty()
    }

    fn default_value() -> (r: Self) {
        let r = AddPoolImageRequest {
            image_data: String::new(),
            name: String::new(),
            description: String::new(),
        };
        r
    }

    fn merge_raw(&mut self, buf: &[u8], f: &RawField) -> (ok: bool) {
        if f.number == 1 {
            match raw_string(buf, f) { Some(s) => { self.image_data = s; true }, None => false }
        } else if f.number == 2 {
            match raw_string(buf, f) { Some(s) => { self.name = s; true }, None => false }
        } else if f.number == 3 {
            match raw_string(buf, f) { Some(s) => { self.description = s; true }, None => false }
        } else {
            true
        }
    }
}

impl AddPoolImageRequest {
    /// Appends the protobuf encoding of this message.
    pub fn encode_to(&self, out: &mut Vec<u8>)
        ensures
            final(out)@ == old(out)@ + self@.encoded(),
    {
        let ghost start = out@;
        proof {
            reveal(SpecAddPoolImageRequest::fields);
        }
        let ghost s0 = seg_str(1, self@.image_data);
        put_str(out, 1, self.image_data.as_str());
        let ghost p0 = s0;
        assert(out@ =~= start + encode_fields(p0));
        let ghost s1 = seg_str(2, self@.name);
        put_str(out, 2, self.name.as_str());
        let ghost p1 = p0 + s1;
        proof {
            lemma_encode_fields_append(p0, s1);
        }
        assert(out@ =~= start + encode_fields(p1));
        let ghost s2 = seg_str(3, self@.description);
        put_str(out, 3, self.description.as_str());
        let ghost p2 = p1 + s2;
        proof {
            lemma_encode_fields_append(p1, s2);
        }
        assert(out@ =~= start + encode_fields(p2));
        assert(out@ =~= start + self@.encoded());
    }

    /// The protobuf encoding of this message.
    pub fn encode_to_vec(&self) -> (r: Vec<u8>)
        ensures
            r@ == self@.encoded(),
    {
        let mut out: Vec<u8> = Vec::new();
        self.encode_to(&mut out);
        assert(out@ =~= self@.encoded());
        out
    }

    /// Decodes a message; `None` where the bytes are not a valid encoding.
    pub fn decode(buf: &[u8]) -> (r: Option<AddPoolImageRequest>)
        ensures
            match decode_into(buf@, SpecAddPoolImageRequest::empty()) {
                Some(m) => r matches Some(v) && v@ == m,
                None => r is None,
            },
    {
        decode_message::<AddPoolImageRequest>(buf)
    }

    /// Appends one length-delimited field `n` per element of `v`.
    pub fn put_repeated(out: &mut Vec<u8>, n: u32, v: &Vec<AddPoolImageRequest>)
        requires
            1 <= n <= MAX_FIELD_NUMBER,
        ensures
            final(out)@ == old(out)@ + encode_fields(seg_rep(n, SpecAddPoolImageRequest::encode_all(Seq::new(v@.len(), |i: int| v@[i]@)))),
    {
        let ghost all = SpecAddPoolImageRequest::encode_all(Seq::new(v@.len(), |i: int| v@[i]@));
        let mut part: Vec<u8> = Vec::new();
        let mut i: usize = 0;
        proof {
            lemma_seg_rep_full(n, all);
            lemma_encode_empty();
        }
        while i < v.len()
            invariant
                1 <= n <= MAX_FIELD_NUMBER,
                i <= v@.len(),
                all == SpecAddPoolImageRequest::encode_all(Seq::new(v@.len(), |i: int| v@[i]@)),
                part@ == encode_fields(seg_rep(n, all.take(i as int))),
            decreases v@.len() - i,
        {
            let b = v[i].encode_to_vec();
            proof {
                assert(all.take(i as int).push(b@) =~= all.take(i + 1));
            }
            put_rep_item(&mut part, n, b.as_slice(), Ghost(all.take(i as int)));
            i = i + 1;
        }
        proof {
            lemma_seg_rep_full(n, all);
        }
        append_all(out, &part);
    }
}

/// Decoding the fields of a well-formed `AddPoolImageRequest` gives it back.
pub proof fn lemma_round_add_pool_image_request(m: SpecAddPoolImageRequest)
    requires
        m.wf(),
    ensures
        merge_fields(m.fields(), SpecAddPoolImageRequest::empty()) == Some(m),
        fields_wf(m.fields()),
{
    reveal(SpecAddPoolImageRequest::fields);
    reveal(SpecAddPoolImageRequest::wf);
    let x0 = SpecAddPoolImageRequest::empty();
    let x1 = SpecAddPoolImageRequest { image_data: m.image_data, name: Seq::empty(), description: Seq::empty() };
    let s0 = seg_str(1, m.image_data);
    assert(merge_fields(s0, x0) == Some(x1) && fields_wf(s0)) by {
        if m.image_data.len() == 0 { assert(m.image_data =~= Seq::<char>::empty()); lemma_seg_empty::<SpecAddPoolImageRequest>(x0); } else { lemma_seg_len::<SpecAddPoolImageRequest>(1, encode_utf8(m.image_data), x0); }
    }
    let p0 = s0;
    let x2 = SpecAddPoolImageRequest { image_data: m.image_data, name: m.name, description: Seq::empty() };
    let s1 = seg_str(2, m.name);
    assert(merge_fields(s1, x1) == Some(x2) && fields_wf(s1)) by {
        if m.name.len() == 0 { assert(m.name =~= Seq::<char>::empty()); lemma_seg_empty::<SpecAddPoolImageRequest>(x1); } else { lemma_seg_len::<SpecAddPoolImageRequest>(2, encode_utf8(m.name), x1); }
    }
    let p1 = p0 + s1;
    lemma_chain::<SpecAddPoolImageRequest>(p0, s1, x0, x1, x2);
    let x3 = SpecAddPoolImageRequest { image_data: m.image_data, name: m.name, description: m.description };
    let s2 = seg_str(3, m.description);
    assert(merge_fields(s2, x2) == Some(x3) && fields_wf(s2)) by {
        if m.description.len() == 0 { assert(m.description =~= Seq::<char>::empty()); lemma_seg_empty::<SpecAddPoolImageRequest>(x2); } else { lemma_seg_len::<SpecAddPoolImageRequest>(3, encode_utf8(m.description), x2); }
    }
    let p2 = p1 + s2;
    lemma_chain::<SpecAddPoolImageRequest>(p1, s2, x0, x2, x3);
    assert(x3 == m);
}

/// A `AddPoolImageRequest` whose encoding has a length that fits a varint is well-formed.
pub proof fn lemma_wf_add_pool_image_request(m: SpecAddPoolImageRequest)
    requires
        fits(m.encoded()),
    ensures
        m.wf(),
{
    reveal(SpecAddPoolImageRequest::fields);
    reveal(SpecAddPoolImageRequest::wf);
    let s0 = seg_str(1, m.image_data);
    let p0 = s0;
    let s1 = seg_str(2, m.name);
    let p1 = p0 + s1;
    let s2 = seg_str(3, m.description);
    let p2 = p1 + s2;
    lemma_fits_parts(p1, s2);
    lemma_fits_parts(p0, s1);
    lemma_fits_seg_str(1, m.image_data);
    lemma_fits_seg_str(2, m.name);
    lemma_fits_seg_str(3, m.description);
}

/// One call: the credential and the operation.
#[derive(Clone, Debug, PartialEq, Default)]
pub struct ApiRequest {
    pub auth: String,
    pub op: Option<Op>,
}

/// The value of a [`ApiRequest`].
pub struct SpecApiRequest {
    pub auth: Seq<char>,
    pub op: Option<SpecOp>,
}

impl View for ApiRequest {
    type V = SpecApiRequest;

    open spec fn view(&self) -> SpecApiRequest {
        SpecApiRequest {
            auth: self.auth@,
            op: match &self.op { Some(c) => Some(c@), None => None },
        }
    }
}

impl SpecApiRequest {
    /// Every field at its default.
    pub open spec fn empty() -> SpecApiRequest {
        SpecApiRequest {
            auth: Seq::empty(),
            op: None,
        }
    }

    /// The fields written for this value, in field-number order.
    #[verifier::opaque]
    pub open spec fn fields(self) -> Seq<SpecField> {
        seg_str(1, self.auth)
            + SpecOp::fields_of(self.op)
    }

    pub open spec fn encoded(self) -> Seq<u8> {
        encode_fields(self.fields())
    }

    pub open spec fn encode_all(v: Seq<SpecApiRequest>) -> Seq<Seq<u8>> {
        Seq::new(v.len(), |i: int| v[i].encoded())
    }

    /// Every length-delimited payload fits a varint length.
    #[verifier::opaque]
    pub open spec fn wf(self) -> bool {
        fits(encode_utf8(self.auth))
        && SpecOp::wf_of(self.op)
    }
}

impl Message for SpecApiRequest {
    open spec fn merge(self, f: SpecField) -> Option<SpecApiRequest> {
        if f.number == 1 {
            match as_string(f.value) { Some(s) => Some(SpecApiRequest { auth: s, ..self }), None => None }
        } else if f.number == 10 {
            match merge_nested(f.value, match self.op { Some(SpecOp::GetApiInfo(c)) => c, _ => SpecEmpty::empty() }) { Some(c) => Some(SpecApiRequest { op: Some(SpecOp::GetApiInfo(c)), ..self }), None => None }
        } else if f.number == 11 {
            match merge_nested(f.value, match self.op { Some(SpecOp::ListFlowCards(c)) => c, _ => SpecListFlowCardsRequest::empty() }) { Some(c) => Some(SpecApiRequest { op: Some(SpecOp::ListFlowCards(c)), ..self }), None => None }
        } else if f.number == 12 {
            match merge_nested(f.value, match self.op { Some(SpecOp::GetTipcard(c)) => c, _ => SpecGetByIdRequest::empty() }) { Some(c) => Some(SpecApiRequest { op: Some(SpecOp::GetTipcard(c)), ..self }), None => None }
        } else if f.number == 13 {
            match merge_nested(f.value, match self.op { Some(SpecOp::TipsV1(c)) => c, _ => SpecTipsRequestV1::empty() }) { Some(c) => Some(SpecApiRequest { op: Some(SpecOp::TipsV1(c)), ..self }), None => None }
        } else if f.number == 14 {
            match merge_nested(f.value, match self.op { Some(SpecOp::ReviewAndAdvance(c)) => c, _ => SpecReviewAndAdvanceRequest::empty() }) { Some(c) => Some(SpecApiRequest { op: Some(SpecOp::ReviewAndAdvance(c)), ..self }), None => None }
        } else if f.number == 15 {
            match merge_nested(f.value, match self.op { Some(SpecOp::ContinueDailyReview(c)) => c, _ => SpecContinueDailyReviewRequest::empty() }) { Some(c) => Some(SpecApiRequest { op: Some(SpecOp::ContinueDailyReview(c)), ..self }), None => None }
        } else if f.number == 16 {
            match merge_nested(f.value, match self.op { Some(SpecOp::PinTipcard(c)) => c, _ => SpecPinTipcardRequest::empty() }) { Some(c) => Some(SpecApiRequest { op: Some(SpecOp::PinTipcard(c)), ..self }), None => None }
        } else if f.number == 17 {
            match merge_nested(f.value, match self.op { Some(SpecOp::DeleteTipcard(c)) => c, _ => SpecDeleteByIdRequest::empty() }) { Some(c) => Some(SpecApiRequest { op: Some(SpecOp::DeleteTipcard(c)), ..self }), None => None }
        } else if f.number == 18 {
            match merge_nested(f.value, match self.op { Some(SpecOp::ListTipcards(c)) => c, _ => SpecEmpty::empty() }) { Some(c) => Some(SpecApiRequest { op: Some(SpecOp::ListTipcards(c)), ..self }), None => None }
        } else if f.number == 19 {
            match merge_nested(f.value, match self.op { Some(SpecOp::ForceDailyRefresh(c)) => c, _ => SpecForceDailyRefreshRequest::empty() }) { Some(c) => Some(SpecApiRequest { op: Some(SpecOp::ForceDailyRefresh(c)), ..self }), None => None }
        } else if f.number == 20 {
            match merge_nested(f.value, match self.op { Some(SpecOp::GetSettings(c)) => c, _ => SpecEmpty::empty() }) { Some(c) => Some(SpecApiRequest { op: Some(SpecOp::GetSettings(c)), ..self }), None => None }
        } else if f.number == 21 {
            match merge_nested(f.value, match self.op { Some(SpecOp::UpdateSettings(c)) => c, _ => SpecUpdateSettingsRequest::empty() }) { Some(c) => Some(SpecApiRequest { op: Some(SpecOp::UpdateSettings(c)), ..self }), None => None }
        } else if f.number == 22 {
            match merge_nested(f.value, match self.op { Some(SpecOp::TestVisionModel(c)) => c, _ => SpecEmpty::empty() }) { Some(c) => Some(SpecApiRequest { op: Some(SpecOp::TestVisionModel(c)), ..self }), None => None }
        } else if f.number == 23 {
            match merge_nested(f.value, match self.op { Some(SpecOp::ListApiKeys(c)) => c, _ => SpecEmpty::empty() }) { Some(c) => Some(SpecApiRequest { op: Some(SpecOp::ListApiKeys(c)), ..self }), None => None }
        } else if f.number == 24 {
            match merge_nested(f.value, match self.op { Some(SpecOp::CreateApiKey(c)) => c, _ => SpecCreateApiKeyRequest::empty() }) { Some(c) => Some(SpecApiRequest { op: Some(SpecOp::CreateApiKey(c)), ..self }), None => None }
        } else if f.number == 25 {
            match merge_nested(f.value, match self.op { Some(SpecOp::DeleteApiKey(c)) => c, _ => SpecDeleteByIdRequest::empty() }) { Some(c) => Some(SpecApiRequest { op: Some(SpecOp::DeleteApiKey(c)), ..self }), None => None }
        } else if f.number == 26 {
            match merge_nested(f.value, match self.op { Some(SpecOp::GetSummary(c)) => c, _ => SpecEmpty::empty() }) { Some(c) => Some(SpecApiRequest { op: Some(SpecOp::GetSummary(c)), ..self }), None => None }
        } else if f.number == 27 {
            match merge_nested(f.value, match self.op { Some(SpecOp::ListAppTopics(c)) => c, _ => SpecEmpty::empty() }) { Some(c) => Some(SpecApiRequest { op: Some(SpecOp::ListAppTopics(c)), ..self }), None => None }
        } else if f.number == 28 {
            match merge_nested(f.value, match self.op { Some(SpecOp::UpdateTopic(c)) => c, _ => SpecUpdateTopicRequest::empty() }) { Some(c) => Some(SpecApiRequest { op: Some(SpecOp::UpdateTopic(c)), ..self }), None => None }
        } else if f.number == 29 {
            match merge_nested(f.value, match self.op { Some(SpecOp::DeleteTopic(c)) => c, _ => SpecDeleteByIdRequest::empty() }) { Some(c) => Some(SpecApiRequest { op: Some(SpecOp::DeleteTopic(c)), ..self }), None => None }
        } else if f.number == 30 {
            match merge_nested(f.value, match self.op { Some(SpecOp::ListDocuments(c)) => c, _ => SpecEmpty::empty() }) { Some(c) => Some(SpecApiRequest { op: Some(SpecOp::ListDocuments(c)), ..self }), None => None }
        } else if f.number == 31 {
            match merge_nested(f.value, match self.op { Some(SpecOp::GetDocument(c)) => c, _ => SpecGetByIdRequest::empty() }) { Some(c) => Some(SpecApiRequest { op: Some(SpecOp::GetDocument(c)), ..self }), None => None }
        } else if f.number == 32 {
            match merge_nested(f.value, match self.op { Some(SpecOp::CreateDocument(c)) => c, _ => SpecAddDocumentRequest::empty() }) { Some(c) => Some(SpecApiRequest { op: Some(SpecOp::CreateDocument(c)), ..self }), None => None }
        } else if f.number == 33 {
            match merge_nested(f.value, match self.op { Some(SpecOp::UploadDocument(c)) => c, _ => SpecUploadDocumentRequest::empty() }) { Some(c) => Some(SpecApiRequest { op: Some(SpecOp::UploadDocument(c)), ..self }), None => None }
        } else if f.number == 34 {
            match merge_nested(f.value, match self.op { Some(SpecOp::DeleteDocument(c)) => c, _ => SpecDeleteByIdRequest::empty() }) { Some(c) => Some(SpecApiRequest { op: Some(SpecOp::DeleteDocument(c)), ..self }), None => None }
        } else if f.number == 35 {
            match merge_nested(f.value, match self.op { Some(SpecOp::AttachDocumentTopic(c)) => c, _ => SpecAttachDocumentTopicRequest::empty() }) { Some(c) => Some(SpecApiRequest { op: Some(SpecOp::AttachDocumentTopic(c)), ..self }), None => None }
        } else if f.number == 36 {
            match merge_nested(f.value, match self.op { Some(SpecOp::DetachDocumentTopic(c)) => c, _ => SpecAttachDocumentTopicRequest::empty() }) { Some(c) => Some(SpecApiRequest { op: Some(SpecOp::DetachDocumentTopic(c)), ..self }), None => None }
        } else if f.number == 37 {
            match merge_nested(f.value, match self.op { Some(SpecOp::ExploreLink(c)) => c, _ => SpecExploreLinkRequest::empty() }) { Some(c) => Some(SpecApiRequest { op: Some(SpecOp::ExploreLink(c)), ..self }), None => None }
        } else if f.number == 38 {
            match merge_nested(f.value, match self.op { Some(SpecOp::ListPoolImages(c)) => c, _ => SpecEmpty::empty() }) { Some(c) => Some(SpecApiRequest { op: Some(SpecOp::ListPoolImages(c)), ..self }), None => None }
        } else if f.number == 39 {
            match merge_nested(f.value, match self.op { Some(SpecOp::CreatePoolImage(c)) => c, _ => SpecAddPoolImageRequest::empty() }) { Some(c) => Some(SpecApiRequest { op: Some(SpecOp::CreatePoolImage(c)), ..self }), None => None }
        } else if f.number == 40 {
            match merge_nested(f.value, match self.op { Some(SpecOp::DeletePoolImage(c)) => c, _ => SpecDeleteByIdRequest::empty() }) { Some(c) => Some(SpecApiRequest { op: Some(SpecOp::DeletePoolImage(c)), ..self }), None => None }
        } else if f.number == 41 {
            match merge_nested(f.value, match self.op { Some(SpecOp::ReviewV1(c)) => c, _ => SpecReviewRequestV1::empty() }) { Some(c) => Some(SpecApiRequest { op: Some(SpecOp::ReviewV1(c)), ..self }), None => None }
        } else {
            Some(self)
        }
    }
}

impl WireMessage for ApiRequest {
    type Spec = SpecApiRequest;

    open spec fn spec_of(&self) -> SpecApiRequest {
        self@
    }

    open spec fn spec_default() -> SpecApiRequest {
        SpecApiRequest::empty()
    }

    fn default_value() -> (r: Self) {
        let r = ApiRequest {
            auth: String::new(),
            op: None,
        };
        r
    }

    fn merge_raw(&mut self, buf: &[u8], f: &RawField) -> (ok: bool) {
        if f.number == 1 {
            match raw_string(buf, f) { Some(s) => { self.auth = s; true }, None => false }
        } else if f.number == 10 {
            { let cur = match self.op.take() { Some(Op::GetApiInfo(c)) => c, _ => Empty::default_value() }; match raw_nested(buf, f, cur) { Some(c) => { self.op = Some(Op::GetApiInfo(c)); true }, None => false } }
        } else if f.number == 11 {
            { let cur = match self.op.take() { Some(Op::ListFlowCards(c)) => c, _ => ListFlowCardsRequest::default_value() }; match raw_nested(buf, f, cur) { Some(c) => { self.op = Some(Op::ListFlowCards(c)); true }, None => false } }
        } else if f.number == 12 {
            { let cur = match self.op.take() { Some(Op::GetTipcard(c)) => c, _ => GetByIdRequest::default_value() }; match raw_nested(buf, f, cur) { Some(c) => { self.op = Some(Op::GetTipcard(c)); true }, None => false } }
        } else if f.number == 13 {
            { let cur = match self.op.take() { Some(Op::TipsV1(c)) => c, _ => TipsRequestV1::default_value() }; match raw_nested(buf, f, cur) { Some(c) => { self.op = Some(Op::TipsV1(c)); true }, None => false } }
        } else if f.number == 14 {
            { let cur = match self.op.take() { Some(Op::ReviewAndAdvance(c)) => c, _ => ReviewAndAdvanceRequest::default_value() }; match raw_nested(buf, f, cur) { Some(c) => { self.op = Some(Op::ReviewAndAdvance(c)); true }, None => false } }
        } else if f.number == 15 {
            { let cur = match self.op.take() { Some(Op::ContinueDailyReview(c)) => c, _ => ContinueDailyReviewRequest::default_value() }; match raw_nested(buf, f, cur) { Some(c) => { self.op = Some(Op::ContinueDailyReview(c)); true }, None => false } }
        } else if f.number == 16 {
            { let cur = match self.op.take() { Some(Op::PinTipcard(c)) => c, _ => PinTipcardRequest::default_value() }; match raw_nested(buf, f, cur) { Some(c) => { self.op = Some(Op::PinTipcard(c)); true }, None => false } }
        } else if f.number == 17 {
            { let cur = match self.op.take() { Some(Op::DeleteTipcard(c)) => c, _ => DeleteByIdRequest::default_value() }; match raw_nested(buf, f, cur) { Some(c) => { self.op = Some(Op::DeleteTipcard(c)); true }, None => false } }
        } else if f.number == 18 {
            { let cur = match self.op.take() { Some(Op::ListTipcards(c)) => c, _ => Empty::default_value() }; match raw_nested(buf, f, cur) { Some(c) => { self.op = Some(Op::ListTipcards(c)); true }, None => false } }
        } else if f.number == 19 {
            { let cur = match self.op.take() { Some(Op::ForceDailyRefresh(c)) => c, _ => ForceDailyRefreshRequest::default_value() }; match raw_nested(buf, f, cur) { Some(c) => { self.op = Some(Op::ForceDailyRefresh(c)); true }, None => false } }
        } else if f.number == 20 {
            { let cur = match self.op.take() { Some(Op::GetSettings(c)) => c, _ => Empty::default_value() }; match raw_nested(buf, f, cur) { Some(c) => { self.op = Some(Op::GetSettings(c)); true }, None => false } }
        } else if f.number == 21 {
            { let cur = match self.op.take() { Some(Op::UpdateSettings(c)) => c, _ => UpdateSettingsRequest::default_value() }; match raw_nested(buf, f, cur) { Some(c) => { self.op = Some(Op::UpdateSettings(c)); true }, None => false } }
        } else if f.number == 22 {
            { let cur = match self.op.take() { Some(Op::TestVisionModel(c)) => c, _ => Empty::default_value() }; match raw_nested(buf, f, cur) { Some(c) => { self.op = Some(Op::TestVisionModel(c)); true }, None => false } }
        } else if f.number == 23 {
            { let cur = match self.op.take() { Some(Op::ListApiKeys(c)) => c, _ => Empty::default_value() }; match raw_nested(buf, f, cur) { Some(c) => { self.op = Some(Op::ListApiKeys(c)); true }, None => false } }
        } else if f.number == 24 {
            { let cur = match self.op.take() { Some(Op::CreateApiKey(c)) => c, _ => CreateApiKeyRequest::default_value() }; match raw_nested(buf, f, cur) { Some(c) => { self.op = Some(Op::CreateApiKey(c)); true }, None => false } }
        } else if f.number == 25 {
            { let cur = match self.op.take() { Some(Op::DeleteApiKey(c)) => c, _ => DeleteByIdRequest::default_value() }; match raw_nested(buf, f, cur) { Some(c) => { self.op = Some(Op::DeleteApiKey(c)); true }, None => false } }
        } else if f.number == 26 {
            { let cur = match self.op.take() { Some(Op::GetSummary(c)) => c, _ => Empty::default_value() }; match raw_nested(buf, f, cur) { Some(c) => { self.op = Some(Op::GetSummary(c)); true }, None => false } }
        } else if f.number == 27 {
            { let cur = match self.op.take() { Some(Op::ListAppTopics(c)) => c, _ => Empty::default_value() }; match raw_nested(buf, f, cur) { Some(c) => { self.op = Some(Op::ListAppTopics(c)); true }, None => false } }
        } else if f.number == 28 {
            { let cur = match self.op.take() { Some(Op::UpdateTopic(c)) => c, _ => UpdateTopicRequest::default_value() }; match raw_nested(buf, f, cur) { Some(c) => { self.op = Some(Op::UpdateTopic(c)); true }, None => false } }
        } else if f.number == 29 {
            { let cur = match self.op.take() { Some(Op::DeleteTopic(c)) => c, _ => DeleteByIdRequest::default_value() }; match raw_nested(buf, f, cur) { Some(c) => { self.op = Some(Op::DeleteTopic(c)); true }, None => false } }
        } else if f.number == 30 {
            { let cur = match self.op.take() { Some(Op::ListDocuments(c)) => c, _ => Empty::default_value() }; match raw_nested(buf, f, cur) { Some(c) => { self.op = Some(Op::ListDocuments(c)); true }, None => false } }
        } else if f.number == 31 {
            { let cur = match self.op.take() { Some(Op::GetDocument(c)) => c, _ => GetByIdRequest::default_value() }; match raw_nested(buf, f, cur) { Some(c) => { self.op = Some(Op::GetDocument(c)); true }, None => false } }
        } else if f.number == 32 {
            { let cur = match self.op.take() { Some(Op::CreateDocument(c)) => c, _ => AddDocumentRequest::default_value() }; match raw_nested(buf, f, cur) { Some(c) => { self.op = Some(Op::CreateDocument(c)); true }, None => false } }
        } else if f.number == 33 {
            { let cur = match self.op.take() { Some(Op::UploadDocument(c)) => c, _ => UploadDocumentRequest::default_value() }; match raw_nested(buf, f, cur) { Some(c) => { self.op = Some(Op::UploadDocument(c)); true }, None => false } }
        } else if f.number == 34 {
            { let cur = match self.op.take() { Some(Op::DeleteDocument(c)) => c, _ => DeleteByIdRequest::default_value() }; match raw_nested(buf, f, cur) { Some(c) => { self.op = Some(Op::DeleteDocument(c)); true }, None => false } }
        } else if f.number == 35 {
            { let cur = match self.op.take() { Some(Op::AttachDocumentTopic(c)) => c, _ => AttachDocumentTopicRequest::default_value() }; match raw_nested(buf, f, cur) { Some(c) => { self.op = Some(Op::AttachDocumentTopic(c)); true }, None => false } }
        } else if f.number == 36 {
            { let cur = match self.op.take() { Some(Op::DetachDocumentTopic(c)) => c, _ => AttachDocumentTopicRequest::default_value() }; match raw_nested(buf, f, cur) { Some(c) => { self.op = Some(Op::DetachDocumentTopic(c)); true }, None => false } }
        } else if f.number == 37 {
            { let cur = match self.op.take() { Some(Op::ExploreLink(c)) => c, _ => ExploreLinkRequest::default_value() }; match raw_nested(buf, f, cur) { Some(c) => { self.op = Some(Op::ExploreLink(c)); true }, None => false } }
        } else if f.number == 38 {
            { let cur = match self.op.take() { Some(Op::ListPoolImages(c)) => c, _ => Empty::default_value() }; match raw_nested(buf, f, cur) { Some(c) => { self.op = Some(Op::ListPoolImages(c)); true }, None => false } }
        } else if f.number == 39 {
            { let cur = match self.op.take() { Some(Op::CreatePoolImage(c)) => c, _ => AddPoolImageRequest::default_value() }; match raw_nested(buf, f, cur) { Some(c) => { self.op = Some(Op::CreatePoolImage(c)); true }, None => false } }
        } else if f.number == 40 {
            { let cur = match self.op.take() { Some(Op::DeletePoolImage(c)) => c, _ => DeleteByIdRequest::default_value() }; match raw_nested(buf, f, cur) { Some(c) => { self.op = Some(Op::DeletePoolImage(c)); true }, None => false } }
        } else if f.number == 41 {
            { let cur = match self.op.take() { Some(Op::ReviewV1(c)) => c, _ => ReviewRequestV1::default_value() }; match raw_nested(buf, f, cur) { Some(c) => { self.op = Some(Op::ReviewV1(c)); true }, None => false } }
        } else {
            true
        }
    }
}

impl ApiRequest {
    /// Appends the protobuf encoding of this message.
    pub fn encode_to(&self, out: &mut Vec<u8>)
        ensures
            final(out)@ == old(out)@ + self@.encoded(),
    {
        let ghost start = out@;
        proof {
            reveal(SpecApiRequest::fields);
        }
        let ghost s0 = seg_str(1, self@.auth);
        put_str(out, 1, self.auth.as_str());
        let ghost p0 = s0;
        assert(out@ =~= start + encode_fields(p0));
        let ghost s1 = SpecOp::fields_of(self@.op);
        Op::put_oneof(out, &self.op);
        let ghost p1 = p0 + s1;
        proof {
            lemma_encode_fields_append(p0, s1);
        }
        assert(out@ =~= start + encode_fields(p1));
        assert(out@ =~= start + self@.encoded());
    }

    /// The protobuf encoding of this message.
    pub fn encode_to_vec(&self) -> (r: Vec<u8>)
        ensures
            r@ == self@.encoded(),
    {
        let mut out: Vec<u8> = Vec::new();
        self.encode_to(&mut out);
        assert(out@ =~= self@.encoded());
        out
    }

    /// Decodes a message; `None` where the bytes are not a valid encoding.
    pub fn decode(buf: &[u8]) -> (r: Option<ApiRequest>)
        ensures
            match decode_into(buf@, SpecApiRequest::empty()) {
                Some(m) => r matches Some(v) && v@ == m,
                None => r is None,
            },
    {
        decode_message::<ApiRequest>(buf)
    }

    /// Appends one length-delimited field `n` per element of `v`.
    pub fn put_repeated(out: &mut Vec<u8>, n: u32, v: &Vec<ApiRequest>)
        requires
            1 <= n <= MAX_FIELD_NUMBER,
        ensures
            final(out)@ == old(out)@ + encode_fields(seg_rep(n, SpecApiRequest::encode_all(Seq::new(v@.len(), |i: int| v@[i]@)))),
    {
        let ghost all = SpecApiRequest::encode_all(Seq::new(v@.len(), |i: int| v@[i]@));
        let mut part: Vec<u8> = Vec::new();
        let mut i: usize = 0;
        proof {
            lemma_seg_rep_full(n, all);
            lemma_encode_empty();
        }
        while i < v.len()
            invariant
                1 <= n <= MAX_FIELD_NUMBER,
                i <= v@.len(),
                all == SpecApiRequest::encode_all(Seq::new(v@.len(), |i: int| v@[i]@)),
                part@ == encode_fields(seg_rep(n, all.take(i as int))),
            decreases v@.len() - i,
        {
            let b = v[i].encode_to_vec();
            proof {
                assert(all.take(i as int).push(b@) =~= all.take(i + 1));
            }
            put_rep_item(&mut part, n, b.as_slice(), Ghost(all.take(i as int)));
            i = i + 1;
        }
        proof {
            lemma_seg_rep_full(n, all);
        }
        append_all(out, &part);
    }
}

proof fn lemma_api_request_op_get_api_info(c: SpecEmpty, x: SpecApiRequest)
    requires
        x.op is None,
        c.wf(),
        fits(c.encoded()),
    ensures
        merge_fields(seq![lfield(10, c.encoded())], x) == Some(SpecApiRequest { op: Some(SpecOp::GetApiInfo(c)), ..x }),
        fields_wf(seq![lfield(10, c.encoded())]),
{
    lemma_seg_len::<SpecApiRequest>(10, c.encoded(), x);
    lemma_round_empty(c);
    lemma_decode_encode_fields(c.fields(), SpecEmpty::empty());
}

proof fn lemma_api_request_op_list_flow_cards(c: SpecListFlowCardsRequest, x: SpecApiRequest)
    requires
        x.op is None,
        c.wf(),
        fits(c.encoded()),
    ensures
        merge_fields(seq![lfield(11, c.encoded())], x) == Some(SpecApiRequest { op: Some(SpecOp::ListFlowCards(c)), ..x }),
        fields_wf(seq![lfield(11, c.encoded())]),
{
    lemma_seg_len::<SpecApiRequest>(11, c.encoded(), x);
    lemma_round_list_flow_cards_request(c);
    lemma_decode_encode_fields(c.fields(), SpecListFlowCardsRequest::empty());
}

proof fn lemma_api_request_op_get_tipcard(c: SpecGetByIdRequest, x: SpecApiRequest)
    requires
        x.op is None,
        c.wf(),
        fits(c.encoded()),
    ensures
        merge_fields(seq![lfield(12, c.encoded())], x) == Some(SpecApiRequest { op: Some(SpecOp::GetTipcard(c)), ..x }),
        fields_wf(seq![lfield(12, c.encoded())]),
{
    lemma_seg_len::<SpecApiRequest>(12, c.encoded(), x);
    lemma_round_get_by_id_request(c);
    lemma_decode_encode_fields(c.fields(), SpecGetByIdRequest::empty());
}

proof fn lemma_api_request_op_tips_v1(c: SpecTipsRequestV1, x: SpecApiRequest)
    requires
        x.op is None,
        c.wf(),
        fits(c.encoded()),
    ensures
        merge_fields(seq![lfield(13, c.encoded())], x) == Some(SpecApiRequest { op: Some(SpecOp::TipsV1(c)), ..x }),
        fields_wf(seq![lfield(13, c.encoded())]),
{
    lemma_seg_len::<SpecApiRequest>(13, c.encoded(), x);
    lemma_round_tips_request_v1(c);
    lemma_decode_encode_fields(c.fields(), SpecTipsRequestV1::empty());
}

proof fn lemma_api_request_op_review_and_advance(c: SpecReviewAndAdvanceRequest, x: SpecApiRequest)
    requires
        x.op is None,
        c.wf(),
        fits(c.encoded()),
    ensures
        merge_fields(seq![lfield(14, c.encoded())], x) == Some(SpecApiRequest { op: Some(SpecOp::ReviewAndAdvance(c)), ..x }),
        fields_wf(seq![lfield(14, c.encoded())]),
{
    lemma_seg_len::<SpecApiRequest>(14, c.encoded(), x);
    lemma_round_review_and_advance_request(c);
    lemma_decode_encode_fields(c.fields(), SpecReviewAndAdvanceRequest::empty());
}

proof fn lemma_api_request_op_continue_daily_review(c: SpecContinueDailyReviewRequest, x: SpecApiRequest)
    requires
        x.op is None,
        c.wf(),
        fits(c.encoded()),
    ensures
        merge_fields(seq![lfield(15, c.encoded())], x) == Some(SpecApiRequest { op: Some(SpecOp::ContinueDailyReview(c)), ..x }),
        fields_wf(seq![lfield(15, c.encoded())]),
{
    lemma_seg_len::<SpecApiRequest>(15, c.encoded(), x);
    lemma_round_continue_daily_review_request(c);
    lemma_decode_encode_fields(c.fields(), SpecContinueDailyReviewRequest::empty());
}

proof fn lemma_api_request_op_pin_tipcard(c: SpecPinTipcardRequest, x: SpecApiRequest)
    requires
        x.op is None,
        c.wf(),
        fits(c.encoded()),
    ensures
        merge_fields(seq![lfield(16, c.encoded())], x) == Some(SpecApiRequest { op: Some(SpecOp::PinTipcard(c)), ..x }),
        fields_wf(seq![lfield(16, c.encoded())]),
{
    lemma_seg_len::<SpecApiRequest>(16, c.encoded(), x);
    lemma_round_pin_tipcard_request(c);
    lemma_decode_encode_fields(c.fields(), SpecPinTipcardRequest::empty());
}

proof fn lemma_api_request_op_delete_tipcard(c: SpecDeleteByIdRequest, x: SpecApiRequest)
    requires
        x.op is None,
        c.wf(),
        fits(c.encoded()),
    ensures
        merge_fields(seq![lfield(17, c.encoded())], x) == Some(SpecApiRequest { op: Some(SpecOp::DeleteTipcard(c)), ..x }),
        fields_wf(seq![lfield(17, c.encoded())]),
{
    lemma_seg_len::<SpecApiRequest>(17, c.encoded(), x);
    lemma_round_delete_by_id_request(c);
    lemma_decode_encode_fields(c.fields(), SpecDeleteByIdRequest::empty());
}

proof fn lemma_api_request_op_list_tipcards(c: SpecEmpty, x: SpecApiRequest)
    requires
        x.op is None,
        c.wf(),
        fits(c.encoded()),
    ensures
        merge_fields(seq![lfield(18, c.encoded())], x) == Some(SpecApiRequest { op: Some(SpecOp::ListTipcards(c)), ..x }),
        fields_wf(seq![lfield(18, c.encoded())]),
{
    lemma_seg_len::<SpecApiRequest>(18, c.encoded(), x);
    lemma_round_empty(c);
    lemma_decode_encode_fields(c.fields(), SpecEmpty::empty());
}

proof fn lemma_api_request_op_force_daily_refresh(c: SpecForceDailyRefreshRequest, x: SpecApiRequest)
    requires
        x.op is None,
        c.wf(),
        fits(c.encoded()),
    ensures
        merge_fields(seq![lfield(19, c.encoded())], x) == Some(SpecApiRequest { op: Some(SpecOp::ForceDailyRefresh(c)), ..x }),
        fields_wf(seq![lfield(19, c.encoded())]),
{
    lemma_seg_len::<SpecApiRequest>(19, c.encoded(), x);
    lemma_round_force_daily_refresh_request(c);
    lemma_decode_encode_fields(c.fields(), SpecForceDailyRefreshRequest::empty());
}

proof fn lemma_api_request_op_get_settings(c: SpecEmpty, x: SpecApiRequest)
    requires
        x.op is None,
        c.wf(),
        fits(c.encoded()),
    ensures
        merge_fields(seq![lfield(20, c.encoded())], x) == Some(SpecApiRequest { op: Some(SpecOp::GetSettings(c)), ..x }),
        fields_wf(seq![lfield(20, c.encoded())]),
{
    lemma_seg_len::<SpecApiRequest>(20, c.encoded(), x);
    lemma_round_empty(c);
    lemma_decode_encode_fields(c.fields(), SpecEmpty::empty());
}

proof fn lemma_api_request_op_update_settings(c: SpecUpdateSettingsRequest, x: SpecApiRequest)
    requires
        x.op is None,
        c.wf(),
        fits(c.encoded()),
    ensures
        merge_fields(seq![lfield(21, c.encoded())], x) == Some(SpecApiRequest { op: Some(SpecOp::UpdateSettings(c)), ..x }),
        fields_wf(seq![lfield(21, c.encoded())]),
{
    lemma_seg_len::<SpecApiRequest>(21, c.encoded(), x);
    lemma_round_update_settings_request(c);
    lemma_decode_encode_fields(c.fields(), SpecUpdateSettingsRequest::empty());
}

proof fn lemma_api_request_op_test_vision_model(c: SpecEmpty, x: SpecApiRequest)
    requires
        x.op is None,
        c.wf(),
        fits(c.encoded()),
    ensures
        merge_fields(seq![lfield(22, c.encoded())], x) == Some(SpecApiRequest { op: Some(SpecOp::TestVisionModel(c)), ..x }),
        fields_wf(seq![lfield(22, c.encoded())]),
{
    lemma_seg_len::<SpecApiRequest>(22, c.encoded(), x);
    lemma_round_empty(c);
    lemma_decode_encode_fields(c.fields(), SpecEmpty::empty());
}

proof fn lemma_api_request_op_list_api_keys(c: SpecEmpty, x: SpecApiRequest)
    requires
        x.op is None,
        c.wf(),
        fits(c.encoded()),
    ensures
        merge_fields(seq![lfield(23, c.encoded())], x) == Some(SpecApiRequest { op: Some(SpecOp::ListApiKeys(c)), ..x }),
        fields_wf(seq![lfield(23, c.encoded())]),
{
    lemma_seg_len::<SpecApiRequest>(23, c.encoded(), x);
    lemma_round_empty(c);
    lemma_decode_encode_fields(c.fields(), SpecEmpty::empty());
}

proof fn lemma_api_request_op_create_api_key(c: SpecCreateApiKeyRequest, x: SpecApiRequest)
    requires
        x.op is None,
        c.wf(),
        fits(c.encoded()),
    ensures
        merge_fields(seq![lfield(24, c.encoded())], x) == Some(SpecApiRequest { op: Some(SpecOp::CreateApiKey(c)), ..x }),
        fields_wf(seq![lfield(24, c.encoded())]),
{
    lemma_seg_len::<SpecApiRequest>(24, c.encoded(), x);
    lemma_round_create_api_key_request(c);
    lemma_decode_encode_fields(c.fields(), SpecCreateApiKeyRequest::empty());
}

proof fn lemma_api_request_op_delete_api_key(c: SpecDeleteByIdRequest, x: SpecApiRequest)
    requires
        x.op is None,
        c.wf(),
        fits(c.encoded()),
    ensures
        merge_fields(seq![lfield(25, c.encoded())], x) == Some(SpecApiRequest { op: Some(SpecOp::DeleteApiKey(c)), ..x }),
        fields_wf(seq![lfield(25, c.encoded())]),
{
    lemma_seg_len::<SpecApiRequest>(25, c.encoded(), x);
    lemma_round_delete_by_id_request(c);
    lemma_decode_encode_fields(c.fields(), SpecDeleteByIdRequest::empty());
}

proof fn lemma_api_request_op_get_summary(c: SpecEmpty, x: SpecApiRequest)
    requires
        x.op is None,
        c.wf(),
        fits(c.encoded()),
    ensures
        merge_fields(seq![lfield(26, c.encoded())], x) == Some(SpecApiRequest { op: Some(SpecOp::GetSummary(c)), ..x }),
        fields_wf(seq![lfield(26, c.encoded())]),
{
    lemma_seg_len::<SpecApiRequest>(26, c.encoded(), x);
    lemma_round_empty(c);
    lemma_decode_encode_fields(c.fields(), SpecEmpty::empty());
}

proof fn lemma_api_request_op_list_app_topics(c: SpecEmpty, x: SpecApiRequest)
    requires
        x.op is None,
        c.wf(),
        fits(c.encoded()),
    ensures
        merge_fields(seq![lfield(27, c.encoded())], x) == Some(SpecApiRequest { op: Some(SpecOp::ListAppTopics(c)), ..x }),
        fields_wf(seq![lfield(27, c.encoded())]),
{
    lemma_seg_len::<SpecApiRequest>(27, c.encoded(), x);
    lemma_round_empty(c);
    lemma_decode_encode_fields(c.fields(), SpecEmpty::empty());
}

proof fn lemma_api_request_op_update_topic(c: SpecUpdateTopicRequest, x: SpecApiRequest)
    requires
        x.op is None,
        c.wf(),
        fits(c.encoded()),
    ensures
        merge_fields(seq![lfield(28, c.encoded())], x) == Some(SpecApiRequest { op: Some(SpecOp::UpdateTopic(c)), ..x }),
        fields_wf(seq![lfield(28, c.encoded())]),
{
    lemma_seg_len::<SpecApiRequest>(28, c.encoded(), x);
    lemma_round_update_topic_request(c);
    lemma_decode_encode_fields(c.fields(), SpecUpdateTopicRequest::empty());
}

proof fn lemma_api_request_op_delete_topic(c: SpecDeleteByIdRequest, x: SpecApiRequest)
    requires
        x.op is None,
        c.wf(),
        fits(c.encoded()),
    ensures
        merge_fields(seq![lfield(29, c.encoded())], x) == Some(SpecApiRequest { op: Some(SpecOp::DeleteTopic(c)), ..x }),
        fields_wf(seq![lfield(29, c.encoded())]),
{
    lemma_seg_len::<SpecApiRequest>(29, c.encoded(), x);
    lemma_round_delete_by_id_request(c);
    lemma_decode_encode_fields(c.fields(), SpecDeleteByIdRequest::empty());
}

proof fn lemma_api_request_op_list_documents(c: SpecEmpty, x: SpecApiRequest)
    requires
        x.op is None,
        c.wf(),
        fits(c.encoded()),
    ensures
        merge_fields(seq![lfield(30, c.encoded())], x) == Some(SpecApiRequest { op: Some(SpecOp::ListDocuments(c)), ..x }),
        fields_wf(seq![lfield(30, c.encoded())]),
{
    lemma_seg_len::<SpecApiRequest>(30, c.encoded(), x);
    lemma_round_empty(c);
    lemma_decode_encode_fields(c.fields(), SpecEmpty::empty());
}

proof fn lemma_api_request_op_get_document(c: SpecGetByIdRequest, x: SpecApiRequest)
    requires
        x.op is None,
        c.wf(),
        fits(c.encoded()),
    ensures
        merge_fields(seq![lfield(31, c.encoded())], x) == Some(SpecApiRequest { op: Some(SpecOp::GetDocument(c)), ..x }),
        fields_wf(seq![lfield(31, c.encoded())]),
{
    lemma_seg_len::<SpecApiRequest>(31, c.encoded(), x);
    lemma_round_get_by_id_request(c);
    lemma_decode_encode_fields(c.fields(), SpecGetByIdRequest::empty());
}

proof fn lemma_api_request_op_create_document(c: SpecAddDocumentRequest, x: SpecApiRequest)
    requires
        x.op is None,
        c.wf(),
        fits(c.encoded()),
    ensures
        merge_fields(seq![lfield(32, c.encoded())], x) == Some(SpecApiRequest { op: Some(SpecOp::CreateDocument(c)), ..x }),
        fields_wf(seq![lfield(32, c.encoded())]),
{
    lemma_seg_len::<SpecApiRequest>(32, c.encoded(), x);
    lemma_round_add_document_request(c);
    lemma_decode_encode_fields(c.fields(), SpecAddDocumentRequest::empty());
}

proof fn lemma_api_request_op_upload_document(c: SpecUploadDocumentRequest, x: SpecApiRequest)
    requires
        x.op is None,
        c.wf(),
        fits(c.encoded()),
    ensures
        merge_fields(seq![lfield(33, c.encoded())], x) == Some(SpecApiRequest { op: Some(SpecOp::UploadDocument(c)), ..x }),
        fields_wf(seq![lfield(33, c.encoded())]),
{
    lemma_seg_len::<SpecApiRequest>(33, c.encoded(), x);
    lemma_round_upload_document_request(c);
    lemma_decode_encode_fields(c.fields(), SpecUploadDocumentRequest::empty());
}

proof fn lemma_api_request_op_delete_document(c: SpecDeleteByIdRequest, x: SpecApiRequest)
    requires
        x.op is None,
        c.wf(),
        fits(c.encoded()),
    ensures
        merge_fields(seq![lfield(34, c.encoded())], x) == Some(SpecApiRequest { op: Some(SpecOp::DeleteDocument(c)), ..x }),
        fields_wf(seq![lfield(34, c.encoded())]),
{
    lemma_seg_len::<SpecApiRequest>(34, c.encoded(), x);
    lemma_round_delete_by_id_request(c);
    lemma_decode_encode_fields(c.fields(), SpecDeleteByIdRequest::empty());
}

proof fn lemma_api_request_op_attach_document_topic(c: SpecAttachDocumentTopicRequest, x: SpecApiRequest)
    requires
        x.op is None,
        c.wf(),
        fits(c.encoded()),
    ensures
        merge_fields(seq![lfield(35, c.encoded())], x) == Some(SpecApiRequest { op: Some(SpecOp::AttachDocumentTopic(c)), ..x }),
        fields_wf(seq![lfield(35, c.encoded())]),
{
    lemma_seg_len::<SpecApiRequest>(35, c.encoded(), x);
    lemma_round_attach_document_topic_request(c);
    lemma_decode_encode_fields(c.fields(), SpecAttachDocumentTopicRequest::empty());
}

proof fn lemma_api_request_op_detach_document_topic(c: SpecAttachDocumentTopicRequest, x: SpecApiRequest)
    requires
        x.op is None,
        c.wf(),
        fits(c.encoded()),
    ensures
        merge_fields(seq![lfield(36, c.encoded())], x) == Some(SpecApiRequest { op: Some(SpecOp::DetachDocumentTopic(c)), ..x }),
        fields_wf(seq![lfield(36, c.encoded())]),
{
    lemma_seg_len::<SpecApiRequest>(36, c.encoded(), x);
    lemma_round_attach_document_topic_request(c);
    lemma_decode_encode_fields(c.fields(), SpecAttachDocumentTopicRequest::empty());
}

proof fn lemma_api_request_op_explore_link(c: SpecExploreLinkRequest, x: SpecApiRequest)
    requires
        x.op is None,
        c.wf(),
        fits(c.encoded()),
    ensures
        merge_fields(seq![lfield(37, c.encoded())], x) == Some(SpecApiRequest { op: Some(SpecOp::ExploreLink(c)), ..x }),
        fields_wf(seq![lfield(37, c.encoded())]),
{
    lemma_seg_len::<SpecApiRequest>(37, c.encoded(), x);
    lemma_round_explore_link_request(c);
    lemma_decode_encode_fields(c.fields(), SpecExploreLinkRequest::empty());
}

proof fn lemma_api_request_op_list_pool_images(c: SpecEmpty, x: SpecApiRequest)
    requires
        x.op is None,
        c.wf(),
        fits(c.encoded()),
    ensures
        merge_fields(seq![lfield(38, c.encoded())], x) == Some(SpecApiRequest { op: Some(SpecOp::ListPoolImages(c)), ..x }),
        fields_wf(seq![lfield(38, c.encoded())]),
{
    lemma_seg_len::<SpecApiRequest>(38, c.encoded(), x);
    lemma_round_empty(c);
    lemma_decode_encode_fields(c.fields(), SpecEmpty::empty());
}

proof fn lemma_api_request_op_create_pool_image(c: SpecAddPoolImageRequest, x: SpecApiRequest)
    requires
        x.op is None,
        c.wf(),
        fits(c.encoded()),
    ensures
        merge_fields(seq![lfield(39, c.encoded())], x) == Some(SpecApiRequest { op: Some(SpecOp::CreatePoolImage(c)), ..x }),
        fields_wf(seq![lfield(39, c.encoded())]),
{
    lemma_seg_len::<SpecApiRequest>(39, c.encoded(), x);
    lemma_round_add_pool_image_request(c);
    lemma_decode_encode_fields(c.fields(), SpecAddPoolImageRequest::empty());
}

proof fn lemma_api_request_op_delete_pool_image(c: SpecDeleteByIdRequest, x: SpecApiRequest)
    requires
        x.op is None,
        c.wf(),
        fits(c.encoded()),
    ensures
        merge_fields(seq![lfield(40, c.encoded())], x) == Some(SpecApiRequest { op: Some(SpecOp::DeletePoolImage(c)), ..x }),
        fields_wf(seq![lfield(40, c.encoded())]),
{
    lemma_seg_len::<SpecApiRequest>(40, c.encoded(), x);
    lemma_round_delete_by_id_request(c);
    lemma_decode_encode_fields(c.fields(), SpecDeleteByIdRequest::empty());
}

proof fn lemma_api_request_op_review_v1(c: SpecReviewRequestV1, x: SpecApiRequest)
    requires
        x.op is None,
        c.wf(),
        fits(c.encoded()),
    ensures
        merge_fields(seq![lfield(41, c.encoded())], x) == Some(SpecApiRequest { op: Some(SpecOp::ReviewV1(c)), ..x }),
        fields_wf(seq![lfield(41, c.encoded())]),
{
    lemma_seg_len::<SpecApiRequest>(41, c.encoded(), x);
    lemma_round_review_request_v1(c);
    lemma_decode_encode_fields(c.fields(), SpecReviewRequestV1::empty());
}

proof fn lemma_api_request_op_oneof(o: Option<SpecOp>, x: SpecApiRequest)
    requires
        x.op is None,
        SpecOp::wf_of(o),
    ensures
        merge_fields(SpecOp::fields_of(o), x) == Some(SpecApiRequest { op: o, ..x }),
        fields_wf(SpecOp::fields_of(o)),
{
    reveal(SpecOp::wf_of);
    match o {
        Some(SpecOp::GetApiInfo(c)) => lemma_api_request_op_get_api_info(c, x),
        Some(SpecOp::ListFlowCards(c)) => lemma_api_request_op_list_flow_cards(c, x),
        Some(SpecOp::GetTipcard(c)) => lemma_api_request_op_get_tipcard(c, x),
        Some(SpecOp::TipsV1(c)) => lemma_api_request_op_tips_v1(c, x),
        Some(SpecOp::ReviewAndAdvance(c)) => lemma_api_request_op_review_and_advance(c, x),
        Some(SpecOp::ContinueDailyReview(c)) => lemma_api_request_op_continue_daily_review(c, x),
        Some(SpecOp::PinTipcard(c)) => lemma_api_request_op_pin_tipcard(c, x),
        Some(SpecOp::DeleteTipcard(c)) => lemma_api_request_op_delete_tipcard(c, x),
        Some(SpecOp::ListTipcards(c)) => lemma_api_request_op_list_tipcards(c, x),
        Some(SpecOp::ForceDailyRefresh(c)) => lemma_api_request_op_force_daily_refresh(c, x),
        Some(SpecOp::GetSettings(c)) => lemma_api_request_op_get_settings(c, x),
        Some(SpecOp::UpdateSettings(c)) => lemma_api_request_op_update_settings(c, x),
        Some(SpecOp::TestVisionModel(c)) => lemma_api_request_op_test_vision_model(c, x),
        Some(SpecOp::ListApiKeys(c)) => lemma_api_request_op_list_api_keys(c, x),
        Some(SpecOp::CreateApiKey(c)) => lemma_api_request_op_create_api_key(c, x),
        Some(SpecOp::DeleteApiKey(c)) => lemma_api_request_op_delete_api_key(c, x),
        Some(SpecOp::GetSummary(c)) => lemma_api_request_op_get_summary(c, x),
        Some(SpecOp::ListAppTopics(c)) => lemma_api_request_op_list_app_topics(c, x),
        Some(SpecOp::UpdateTopic(c)) => lemma_api_request_op_update_topic(c, x),
        Some(SpecOp::DeleteTopic(c)) => lemma_api_request_op_delete_topic(c, x),
        Some(SpecOp::ListDocuments(c)) => lemma_api_request_op_list_documents(c, x),
        Some(SpecOp::GetDocument(c)) => lemma_api_request_op_get_document(c, x),
        Some(SpecOp::CreateDocument(c)) => lemma_api_request_op_create_document(c, x),
        Some(SpecOp::UploadDocument(c)) => lemma_api_request_op_upload_document(c, x),
        Some(SpecOp::DeleteDocument(c)) => lemma_api_request_op_delete_document(c, x),
        Some(SpecOp::AttachDocumentTopic(c)) => lemma_api_request_op_attach_document_topic(c, x),
        Some(SpecOp::DetachDocumentTopic(c)) => lemma_api_request_op_detach_document_topic(c, x),
        Some(SpecOp::ExploreLink(c)) => lemma_api_request_op_explore_link(c, x),
        Some(SpecOp::ListPoolImages(c)) => lemma_api_request_op_list_pool_images(c, x),
        Some(SpecOp::CreatePoolImage(c)) => lemma_api_request_op_create_pool_image(c, x),
        Some(SpecOp::DeletePoolImage(c)) => lemma_api_request_op_delete_pool_image(c, x),
        Some(SpecOp::ReviewV1(c)) => lemma_api_request_op_review_v1(c, x),
        None => lemma_seg_empty::<SpecApiRequest>(x),
    }
}

/// Decoding the fields of a well-formed `ApiRequest` gives it back.
pub proof fn lemma_round_api_request(m: SpecApiRequest)
    requires
        m.wf(),
    ensures
        merge_fields(m.fields(), SpecApiRequest::empty()) == Some(m),
        fields_wf(m.fields()),
{
    reveal(SpecApiRequest::fields);
    reveal(SpecApiRequest::wf);
    let x0 = SpecApiRequest::empty();
    let x1 = SpecApiRequest { auth: m.auth, op: None };
    let s0 = seg_str(1, m.auth);
    assert(merge_fields(s0, x0) == Some(x1) && fields_wf(s0)) by {
        if m.auth.len() == 0 { assert(m.auth =~= Seq::<char>::empty()); lemma_seg_empty::<SpecApiRequest>(x0); } else { lemma_seg_len::<SpecApiRequest>(1, encode_utf8(m.auth), x0); }
    }
    let p0 = s0;
    let x2 = SpecApiRequest { auth: m.auth, op: m.op };
    let s1 = SpecOp::fields_of(m.op);
    assert(merge_fields(s1, x1) == Some(x2) && fields_wf(s1)) by {
        lemma_api_request_op_oneof(m.op, x1);
    }
    let p1 = p0 + s1;
    lemma_chain::<SpecApiRequest>(p0, s1, x0, x1, x2);
    assert(x2 == m);
}

/// A `ApiRequest` whose encoding has a length that fits a varint is well-formed.
pub proof fn lemma_wf_api_request(m: SpecApiRequest)
    requires
        fits(m.encoded()),
    ensures
        m.wf(),
{
    reveal(SpecApiRequest::fields);
    reveal(SpecApiRequest::wf);
    let s0 = seg_str(1, m.auth);
    let p0 = s0;
    let s1 = SpecOp::fields_of(m.op);
    let p1 = p0 + s1;
    lemma_fits_parts(p0, s1);
    lemma_fits_seg_str(1, m.auth);
    lemma_wf_of_op(m.op);
}

/// The versioned request envelope.
#[derive(Clone, Debug, PartialEq, Default)]
pub struct ApiV1Request {
    pub request_id: String,
    pub call: Option<ApiRequest>,
    pub idempotency_key: String,
}

/// The value of a [`ApiV1Request`].
pub struct SpecApiV1Request {
    pub request_id: Seq<char>,
    pub call: Option<SpecApiRequest>,
    pub idempotency_key: Seq<char>,
}

impl View for ApiV1Request {
    type V = SpecApiV1Request;

    open spec fn view(&self) -> SpecApiV1Request {
        SpecApiV1Request {
            request_id: self.request_id@,
            call: match &self.call { Some(c) => Some(c@), None => None },
            idempotency_key: self.idempotency_key@,
        }
    }
}

impl SpecApiV1Request {
    /// Every field at its default.
    pub open spec fn empty() -> SpecApiV1Request {
        SpecApiV1Request {
            request_id: Seq::empty(),
            call: None,
            idempotency_key: Seq::empty(),
        }
    }

    /// The fields written for this value, in field-number order.
    #[verifier::opaque]
    pub open spec fn fields(self) -> Seq<SpecField> {
        seg_str(1, self.request_id)
            + seg_msg(2, match self.call { Some(c) => Some(c.encoded()), None => None })
            + seg_str(3, self.idempotency_key)
    }

    pub open spec fn encoded(self) -> Seq<u8> {
        encode_fields(self.fields())
    }

    pub open spec fn encode_all(v: Seq<SpecApiV1Request>) -> Seq<Seq<u8>> {
        Seq::new(v.len(), |i: int| v[i].encoded())
    }

    /// Every length-delimited payload fits a varint length.
    #[verifier::opaque]
    pub open spec fn wf(self) -> bool {
        fits(encode_utf8(self.request_id))
        && (match self.call { Some(c) => c.wf() && fits(c.encoded()), None => true })
        && fits(encode_utf8(self.idempotency_key))
    }
}

impl Message for SpecApiV1Request {
    open spec fn merge(self, f: SpecField) -> Option<SpecApiV1Request> {
        if f.number == 1 {
            match as_string(f.value) { Some(s) => Some(SpecApiV1Request { request_id: s, ..self }), None => None }
        } else if f.number == 2 {
            match merge_nested(f.value, match self.call { Some(c) => c, None => SpecApiRequest::empty() }) { Some(c) => Some(SpecApiV1Request { call: Some(c), ..self }), None => None }
        } else if f.number == 3 {
            match as_string(f.value) { Some(s) => Some(SpecApiV1Request { idempotency_key: s, ..self }), None => None }
        } else {
            Some(self)
        }
    }
}

impl WireMessage for ApiV1Request {
    type Spec = SpecApiV1Request;

    open spec fn spec_of(&self) -> SpecApiV1Request {
        self@
    }

    open spec fn spec_default() -> SpecApiV1Request {
        SpecApiV1Request::empty()
    }

    fn default_value() -> (r: Self) {
        let r = ApiV1Request {
            request_id: String::new(),
            call: None,
            idempotency_key: String::new(),
        };
        r
    }

    fn merge_raw(&mut self, buf: &[u8], f: &RawField) -> (ok: bool) {
        if f.number == 1 {
            match raw_string(buf, f) { Some(s) => { self.request_id = s; true }, None => false }
        } else if f.number == 2 {
            { let cur = match self.call.take() { Some(c) => c, None => ApiRequest::default_value() }; match raw_nested(buf, f, cur) { Some(c) => { self.call = Some(c); true }, None => false } }
        } else if f.number == 3 {
            match raw_string(buf, f) { Some(s) => { self.idempotency_key = s; true }, None => false }
        } else {
            true
        }
    }
}

impl ApiV1Request {
    /// Appends the protobuf encoding of this message.
    pub fn encode_to(&self, out: &mut Vec<u8>)
        ensures
            final(out)@ == old(out)@ + self@.encoded(),
    {
        let ghost start = out@;
        proof {
            reveal(SpecApiV1Request::fields);
        }
        let ghost s0 = seg_str(1, self@.request_id);
        put_str(out, 1, self.request_id.as_str());
        let ghost p0 = s0;
        assert(out@ =~= start + encode_fields(p0));
        let ghost s1 = seg_msg(2, match self@.call { Some(c) => Some(c.encoded()), None => None });
        match &self.call {
            Some(c) => {
                let b = c.encode_to_vec();
                put_msg(out, 2, b.as_slice());
            },
            None => {
                proof {
                    lemma_encode_empty();
                }
                assert(out@ =~= out@ + encode_fields(Seq::<SpecField>::empty()));
            },
        }
        let ghost p1 = p0 + s1;
        proof {
            lemma_encode_fields_append(p0, s1);
        }
        assert(out@ =~= start + encode_fields(p1));
        let ghost s2 = seg_str(3, self@.idempotency_key);
        put_str(out, 3, self.idempotency_key.as_str());
        let ghost p2 = p1 + s2;
        proof {
            lemma_encode_fields_append(p1, s2);
        }
        assert(out@ =~= start + encode_fields(p2));
        assert(out@ =~= start + self@.encoded());
    }

    /// The protobuf encoding of this message.
    pub fn encode_to_vec(&self) -> (r: Vec<u8>)
        ensures
            r@ == self@.encoded(),
    {
        let mut out: Vec<u8> = Vec::new();
        self.encode_to(&mut out);
        assert(out@ =~= self@.encoded());
        out
    }

    /// Decodes a message; `None` where the bytes are not a valid encoding.
    pub fn decode(buf: &[u8]) -> (r: Option<ApiV1Request>)
        ensures
            match decode_into(buf@, SpecApiV1Request::empty()) {
                Some(m) => r matches Some(v) && v@ == m,
                None => r is None,
            },
    {
        decode_message::<ApiV1Request>(buf)
    }

    /// Appends one length-delimited field `n` per element of `v`.
    pub fn put_repeated(out: &mut Vec<u8>, n: u32, v: &Vec<ApiV1Request>)
        requires
            1 <= n <= MAX_FIELD_NUMBER,
        ensures
            final(out)@ == old(out)@ + encode_fields(seg_rep(n, SpecApiV1Request::encode_all(Seq::new(v@.len(), |i: int| v@[i]@)))),
    {
        let ghost all = SpecApiV1Request::encode_all(Seq::new(v@.len(), |i: int| v@[i]@));
        let mut part: Vec<u8> = Vec::new();
        let mut i: usize = 0;
        proof {
            lemma_seg_rep_full(n, all);
            lemma_encode_empty();
        }
        while i < v.len()
            invariant
                1 <= n <= MAX_FIELD_NUMBER,
                i <= v@.len(),
                all == SpecApiV1Request::encode_all(Seq::new(v@.len(), |i: int| v@[i]@)),
                part@ == encode_fields(seg_rep(n, all.take(i as int))),
            decreases v@.len() - i,
        {
            let b = v[i].encode_to_vec();
            proof {
                assert(all.take(i as int).push(b@) =~= all.take(i + 1));
            }
            put_rep_item(&mut part, n, b.as_slice(), Ghost(all.take(i as int)));
            i = i + 1;
        }
        proof {
            lemma_seg_rep_full(n, all);
        }
        append_all(out, &part);
    }
}

/// Decoding the fields of a well-formed `ApiV1Request` gives it back.
pub proof fn lemma_round_api_v1_request(m: SpecApiV1Request)
    requires
        m.wf(),
    ensures
        merge_fields(m.fields(), SpecApiV1Request::empty()) == Some(m),
        fields_wf(m.fields()),
{
    reveal(SpecApiV1Request::fields);
    reveal(SpecApiV1Request::wf);
    let x0 = SpecApiV1Request::empty();
    let x1 = SpecApiV1Request { request_id: m.request_id, call: None, idempotency_key: Seq::empty() };
    let s0 = seg_str(1, m.request_id);
    assert(merge_fields(s0, x0) == Some(x1) && fields_wf(s0)) by {
        if m.request_id.len() == 0 { assert(m.request_id =~= Seq::<char>::empty()); lemma_seg_empty::<SpecApiV1Request>(x0); } else { lemma_seg_len::<SpecApiV1Request>(1, encode_utf8(m.request_id), x0); }
    }
    let p0 = s0;
    let x2 = SpecApiV1Request { request_id: m.request_id, call: m.call, idempotency_key: Seq::empty() };
    let s1 = seg_msg(2, match m.call { Some(c) => Some(c.encoded()), None => None });
    assert(merge_fields(s1, x1) == Some(x2) && fields_wf(s1)) by {
        match m.call { Some(c) => { lemma_seg_len::<SpecApiV1Request>(2, c.encoded(), x1); lemma_round_api_request(c); lemma_decode_encode_fields(c.fields(), SpecApiRequest::empty()); }, None => { lemma_seg_empty::<SpecApiV1Request>(x1); } }
    }
    let p1 = p0 + s1;
    lemma_chain::<SpecApiV1Request>(p0, s1, x0, x1, x2);
    let x3 = SpecApiV1Request { request_id: m.request_id, call: m.call, idempotency_key: m.idempotency_key };
    let s2 = seg_str(3, m.idempotency_key);
    assert(merge_fields(s2, x2) == Some(x3) && fields_wf(s2)) by {
        if m.idempotency_key.len() == 0 { assert(m.idempotency_key =~= Seq::<char>::empty()); lemma_seg_empty::<SpecApiV1Request>(x2); } else { lemma_seg_len::<SpecApiV1Request>(3, encode_utf8(m.idempotency_key), x2); }
    }
    let p2 = p1 + s2;
    lemma_chain::<SpecApiV1Request>(p1, s2, x0, x2, x3);
    assert(x3 == m);
}

/// A `ApiV1Request` whose encoding has a length that fits a varint is well-formed.
pub proof fn lemma_wf_api_v1_request(m: SpecApiV1Request)
    requires
        fits(m.encoded()),
    ensures
        m.wf(),
{
    reveal(SpecApiV1Request::fields);
    reveal(SpecApiV1Request::wf);
    let s0 = seg_str(1, m.request_id);
    let p0 = s0;
    let s1 = seg_msg(2, match m.call { Some(c) => Some(c.encoded()), None => None });
    let p1 = p0 + s1;
    let s2 = seg_str(3, m.idempotency_key);
    let p2 = p1 + s2;
    lemma_fits_parts(p1, s2);
    lemma_fits_parts(p0, s1);
    lemma_fits_seg_str(1, m.request_id);
    match m.call { Some(c) => { lemma_fits_one(2, c.encoded()); lemma_wf_api_request(c); }, None => {} }
    lemma_fits_seg_str(3, m.idempotency_key);
}

/// A choice whose field fits is well-formed.
pub proof fn lemma_wf_of_op(o: Option<SpecOp>)
    requires
        fits(encode_fields(SpecOp::fields_of(o))),
    ensures
        SpecOp::wf_of(o),
{
    reveal(SpecOp::wf_of);
    match o {
        Some(SpecOp::GetApiInfo(c)) => {
            lemma_fits_one(10, c.encoded());
            lemma_wf_empty(c);
        },
        Some(SpecOp::ListFlowCards(c)) => {
            lemma_fits_one(11, c.encoded());
            lemma_wf_list_flow_cards_request(c);
        },
        Some(SpecOp::GetTipcard(c)) => {
            lemma_fits_one(12, c.encoded());
            lemma_wf_get_by_id_request(c);
        },
        Some(SpecOp::TipsV1(c)) => {
            lemma_fits_one(13, c.encoded());
            lemma_wf_tips_request_v1(c);
        },
        Some(SpecOp::ReviewAndAdvance(c)) => {
            lemma_fits_one(14, c.encoded());
            lemma_wf_review_and_advance_request(c);
        },
        Some(SpecOp::ContinueDailyReview(c)) => {
            lemma_fits_one(15, c.encoded());
            lemma_wf_continue_daily_review_request(c);
        },
        Some(SpecOp::PinTipcard(c)) => {
            lemma_fits_one(16, c.encoded());
            lemma_wf_pin_tipcard_request(c);
        },
        Some(SpecOp::DeleteTipcard(c)) => {
            lemma_fits_one(17, c.encoded());
            lemma_wf_delete_by_id_request(c);
        },
        Some(SpecOp::ListTipcards(c)) => {
            lemma_fits_one(18, c.encoded());
            lemma_wf_empty(c);
        },
        Some(SpecOp::ForceDailyRefresh(c)) => {
            lemma_fits_one(19, c.encoded());
            lemma_wf_force_daily_refresh_request(c);
        },
        Some(SpecOp::GetSettings(c)) => {
            lemma_fits_one(20, c.encoded());
            lemma_wf_empty(c);
        },
        Some(SpecOp::UpdateSettings(c)) => {
            lemma_fits_one(21, c.encoded());
            lemma_wf_update_settings_request(c);
        },
        Some(SpecOp::TestVisionModel(c)) => {
            lemma_fits_one(22, c.encoded());
            lemma_wf_empty(c);
        },
        Some(SpecOp::ListApiKeys(c)) => {
            lemma_fits_one(23, c.encoded());
            lemma_wf_empty(c);
        },
        Some(SpecOp::CreateApiKey(c)) => {
            lemma_fits_one(24, c.encoded());
            lemma_wf_create_api_key_request(c);
        },
        Some(SpecOp::DeleteApiKey(c)) => {
            lemma_fits_one(25, c.encoded());
            lemma_wf_delete_by_id_request(c);
        },
        Some(SpecOp::GetSummary(c)) => {
            lemma_fits_one(26, c.encoded());
            lemma_wf_empty(c);
        },
        Some(SpecOp::ListAppTopics(c)) => {
            lemma_fits_one(27, c.encoded());
            lemma_wf_empty(c);
        },
        Some(SpecOp::UpdateTopic(c)) => {
            lemma_fits_one(28, c.encoded());
            lemma_wf_update_topic_request(c);
        },
        Some(SpecOp::DeleteTopic(c)) => {
            lemma_fits_one(29, c.encoded());
            lemma_wf_delete_by_id_request(c);
        },
        Some(SpecOp::ListDocuments(c)) => {
            lemma_fits_one(30, c.encoded());
            lemma_wf_empty(c);
        },
        Some(SpecOp::GetDocument(c)) => {
            lemma_fits_one(31, c.encoded());
            lemma_wf_get_by_id_request(c);
        },
        Some(SpecOp::CreateDocument(c)) => {
            lemma_fits_one(32, c.encoded());
            lemma_wf_add_document_request(c);
        },
        Some(SpecOp::UploadDocument(c)) => {
            lemma_fits_one(33, c.encoded());
            lemma_wf_upload_document_request(c);
        },
        Some(SpecOp::DeleteDocument(c)) => {
            lemma_fits_one(34, c.encoded());
            lemma_wf_delete_by_id_request(c);
        },
        Some(SpecOp::AttachDocumentTopic(c)) => {
            lemma_fits_one(35, c.encoded());
            lemma_wf_attach_document_topic_request(c);
        },
        Some(SpecOp::DetachDocumentTopic(c)) => {
            lemma_fits_one(36, c.encoded());
            lemma_wf_attach_document_topic_request(c);
        },
        Some(SpecOp::ExploreLink(c)) => {
            lemma_fits_one(37, c.encoded());
            lemma_wf_explore_link_request(c);
        },
        Some(SpecOp::ListPoolImages(c)) => {
            lemma_fits_one(38, c.encoded());
            lemma_wf_empty(c);
        },
        Some(SpecOp::CreatePoolImage(c)) => {
            lemma_fits_one(39, c.encoded());
            lemma_wf_add_pool_image_request(c);
        },
        Some(SpecOp::DeletePoolImage(c)) => {
            lemma_fits_one(40, c.encoded());
            lemma_wf_delete_by_id_request(c);
        },
        Some(SpecOp::ReviewV1(c)) => {
            lemma_fits_one(41, c.encoded());
            lemma_wf_review_request_v1(c);
        },
        None => {},
    }
}

} // verus!
