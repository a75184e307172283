//! UI rows built from API results, one field at a time.

use vstd::prelude::*;
use crate::client::opt_view;
use crate::codec::strings_view;
use crate::ops::{blank_to_none, empty_opt};
use crate::pb_card::{SpecTipInfo, SpecTipcardListItem, TipInfo, TipcardListItem};
use crate::pb_resp::{
    ApiKeyInfo, AppTopicInfo, DocumentDetailResponse, DocumentInfo, ExploredLink, PoolImageInfo,
    SpecApiKeyInfo, SpecAppTopicInfo, SpecDocumentDetailResponse, SpecDocumentInfo,
    SpecExploredLink, SpecPoolImageInfo, SpecSummaryResponse, SpecVisionModelTestResponse,
    SummaryResponse, VisionModelTestResponse,
};

verus! {

/// A card in the archive inventory.
#[derive(Clone, Debug, PartialEq)]
pub struct InventoryCard {
    pub id: i64,
    pub topic_name: String,
    pub topic_icon: String,
    pub topic_color: String,
    pub title: String,
    pub full_content: String,
    pub compressed_content: String,
    pub created_at: String,
    pub tipcard_type: String,
    pub status: String,
    pub next_review_at: String,
    pub repeat_count: u32,
    pub pinned: bool,
}

/// `r` is the row for `m`.
pub open spec fn inventory_card_matches(r: InventoryCard, m: SpecTipcardListItem) -> bool {
    r.id == m.id
    && r.topic_name@ == m.topic_name
    && r.topic_icon@ == m.topic_icon
    && r.topic_color@ == m.topic_color
    && r.title@ == m.title
    && r.full_content@ == m.full_content
    && r.compressed_content@ == m.compressed_content
    && r.created_at@ == m.created_at
    && r.tipcard_type@ == m.tipcard_type
    && r.status@ == m.status
    && r.next_review_at@ == m.next_review_at
    && r.repeat_count == m.repeat_count
    && r.pinned == m.pinned
}

/// Each field of the `InventoryCard` comes from the API's field of the same name.
pub proof fn lemma_inventory_card_fields(r: InventoryCard, m: SpecTipcardListItem)
    requires
        inventory_card_matches(r, m),
    ensures
        r.id == m.id,
        r.topic_name@ == m.topic_name,
        r.topic_icon@ == m.topic_icon,
        r.topic_color@ == m.topic_color,
        r.title@ == m.title,
        r.full_content@ == m.full_content,
        r.compressed_content@ == m.compressed_content,
        r.created_at@ == m.created_at,
        r.tipcard_type@ == m.tipcard_type,
        r.status@ == m.status,
        r.next_review_at@ == m.next_review_at,
        r.repeat_count == m.repeat_count,
        r.pinned == m.pinned,
{
}

pub fn inventory_card_from(m: TipcardListItem) -> (r: InventoryCard)
    ensures
        inventory_card_matches(r, m@),
{
    InventoryCard {
        id: m.id,
        topic_name: m.topic_name,
        topic_icon: m.topic_icon,
        topic_color: m.topic_color,
        title: m.title,
        full_content: m.full_content,
        compressed_content: m.compressed_content,
        created_at: m.created_at,
        tipcard_type: m.tipcard_type,
        status: m.status,
        next_review_at: m.next_review_at,
        repeat_count: m.repeat_count,
        pinned: m.pinned,
    }
}

/// The rows for `v`, in order.
pub fn inventory_card_rows(v: Vec<TipcardListItem>) -> (r: Vec<InventoryCard>)
    ensures
        r@.len() == v@.len(),
        forall|i: int| 0 <= i < v@.len() ==> inventory_card_matches(#[trigger] r@[i], v@[i]@),
{
    let ghost orig = v@;
    let mut v = v;
    let mut out: Vec<InventoryCard> = Vec::new();
    while v.len() > 0
        invariant
            out@.len() + v@.len() == orig.len(),
            v@ == orig.skip(out@.len() as int),
            forall|i: int| 0 <= i < out@.len() ==> inventory_card_matches(#[trigger] out@[i], orig[i]@),
        decreases v@.len(),
    {
        let ghost k: int = out@.len() as int;
        let m = v.remove(0);
        proof {
            assert(m == orig[k]);
            assert(v@ =~= orig.skip(k + 1));
        }
        out.push(inventory_card_from(m));
    }
    out
}

/// A card that a request created.
#[derive(Clone, Debug, PartialEq)]
pub struct TipCreated {
    pub id: i64,
    pub topic: String,
    pub tipcard_type: String,
    pub pinned: bool,
}

/// `r` is the row for `m`.
pub open spec fn tip_created_matches(r: TipCreated, m: SpecTipInfo) -> bool {
    r.id == m.id
    && r.topic@ == m.topic
    && r.tipcard_type@ == m.tipcard_type
    && r.pinned == m.pinned
}

/// Each field of the `TipCreated` comes from the API's field of the same name.
pub proof fn lemma_tip_created_fields(r: TipCreated, m: SpecTipInfo)
    requires
        tip_created_matches(r, m),
    ensures
        r.id == m.id,
        r.topic@ == m.topic,
        r.tipcard_type@ == m.tipcard_type,
        r.pinned == m.pinned,
{
}

pub fn tip_created_from(m: TipInfo) -> (r: TipCreated)
    ensures
        tip_created_matches(r, m@),
{
    TipCreated {
        id: m.id,
        topic: m.topic,
        tipcard_type: m.tipcard_type,
        pinned: m.pinned,
    }
}

/// The rows for `v`, in order.
pub fn tip_created_rows(v: Vec<TipInfo>) -> (r: Vec<TipCreated>)
    ensures
        r@.len() == v@.len(),
        forall|i: int| 0 <= i < v@.len() ==> tip_created_matches(#[trigger] r@[i], v@[i]@),
{
    let ghost orig = v@;
    let mut v = v;
    let mut out: Vec<TipCreated> = Vec::new();
    while v.len() > 0
        invariant
            out@.len() + v@.len() == orig.len(),
            v@ == orig.skip(out@.len() as int),
            forall|i: int| 0 <= i < out@.len() ==> tip_created_matches(#[trigger] out@[i], orig[i]@),
        decreases v@.len(),
    {
        let ghost k: int = out@.len() as int;
        let m = v.remove(0);
        proof {
            assert(m == orig[k]);
            assert(v@ =~= orig.skip(k + 1));
        }
        out.push(tip_created_from(m));
    }
    out
}

/// The outcome of a vision model check.
#[derive(Clone, Debug, PartialEq)]
pub struct VisionTestView {
    pub ok: bool,
    pub model: String,
    pub message: String,
}

/// `r` is the row for `m`.
pub open spec fn vision_test_view_matches(r: VisionTestView, m: SpecVisionModelTestResponse) -> bool {
    r.ok == m.ok
    && r.model@ == m.model
    && r.message@ == m.message
}

/// Each field of the `VisionTestView` comes from the API's field of the same name.
pub proof fn lemma_vision_test_view_fields(r: VisionTestView, m: SpecVisionModelTestResponse)
    requires
        vision_test_view_matches(r, m),
    ensures
        r.ok == m.ok,
        r.model@ == m.model,
        r.message@ == m.message,
{
}

pub fn vision_test_view_from(m: VisionModelTestResponse) -> (r: VisionTestView)
    ensures
        vision_test_view_matches(r, m@),
{
    VisionTestView {
        ok: m.ok,
        model: m.model,
        message: m.message,
    }
}

/// An API key as the key list shows it.
#[derive(Clone, Debug, PartialEq)]
pub struct ApiKeyRow {
    pub id: i64,
    pub client_name: String,
    pub created_at: String,
}

/// `r` is the row for `m`.
pub open spec fn api_key_row_matches(r: ApiKeyRow, m: SpecApiKeyInfo) -> bool {
    r.id == m.id
    && r.client_name@ == m.client_name
    && r.created_at@ == m.created_at
}

/// Each field of the `ApiKeyRow` comes from the API's field of the same name.
pub proof fn lemma_api_key_row_fields(r: ApiKeyRow, m: SpecApiKeyInfo)
    requires
        api_key_row_matches(r, m),
    ensures
        r.id == m.id,
        r.client_name@ == m.client_name,
        r.created_at@ == m.created_at,
{
}

pub fn api_key_row_from(m: ApiKeyInfo) -> (r: ApiKeyRow)
    ensures
        api_key_row_matches(r, m@),
{
    ApiKeyRow {
        id: m.id,
        client_name: m.client_name,
        created_at: m.created_at,
    }
}

/// The rows for `v`, in order.
pub fn api_key_row_rows(v: Vec<ApiKeyInfo>) -> (r: Vec<ApiKeyRow>)
    ensures
        r@.len() == v@.len(),
        forall|i: int| 0 <= i < v@.len() ==> api_key_row_matches(#[trigger] r@[i], v@[i]@),
{
    let ghost orig = v@;
    let mut v = v;
    let mut out: Vec<ApiKeyRow> = Vec::new();
    while v.len() > 0
        invariant
            out@.len() + v@.len() == orig.len(),
            v@ == orig.skip(out@.len() as int),
            forall|i: int| 0 <= i < out@.len() ==> api_key_row_matches(#[trigger] out@[i], orig[i]@),
        decreases v@.len(),
    {
        let ghost k: int = out@.len() as int;
        let m = v.remove(0);
        proof {
            assert(m == orig[k]);
            assert(v@ =~= orig.skip(k + 1));
        }
        out.push(api_key_row_from(m));
    }
    out
}

/// Card and topic counts.
#[derive(Clone, Debug, PartialEq)]
pub struct AppSummaryView {
    pub due_cards: i64,
    pub active_cards: i64,
    pub total_cards: i64,
    pub topics: i64,
}

/// `r` is the row for `m`.
pub open spec fn app_summary_view_matches(r: AppSummaryView, m: SpecSummaryResponse) -> bool {
    r.due_cards == m.due_cards
    && r.active_cards == m.active_cards
    && r.total_cards == m.total_cards
    && r.topics == m.topics
}

/// Each field of the `AppSummaryView` comes from the API's field of the same name.
pub proof fn lemma_app_summary_view_fields(r: AppSummaryView, m: SpecSummaryResponse)
    requires
        app_summary_view_matches(r, m),
    ensures
        r.due_cards == m.due_cards,
        r.active_cards == m.active_cards,
        r.total_cards == m.total_cards,
        r.topics == m.topics,
{
}

pub fn app_summary_view_from(m: SummaryResponse) -> (r: AppSummaryView)
    ensures
        app_summary_view_matches(r, m@),
{
    AppSummaryView {
        due_cards: m.due_cards,
        active_cards: m.active_cards,
        total_cards: m.total_cards,
        topics: m.topics,
    }
}

/// A topic with its counts and settings.
#[derive(Clone, Debug, PartialEq)]
pub struct AppTopicView {
    pub id: i64,
    pub name: String,
    pub tipcard_type: String,
    pub icon_id: String,
    pub topic_color: String,
    pub prompt_template: String,
    pub total_cards: i64,
    pub due_cards: i64,
    pub pending_cards: i64,
    pub completed_cards: i64,
    pub daily_card_count: u32,
    pub daily_time_zone: String,
    pub daily_update_time: String,
    pub compression_level: String,
    pub grounding_strategy: String,
    pub image_strategy: String,
}

/// `r` is the row for `m`.
pub open spec fn app_topic_view_matches(r: AppTopicView, m: SpecAppTopicInfo) -> bool {
    r.id == m.id
    && r.name@ == m.name
    && r.tipcard_type@ == m.tipcard_type
    && r.icon_id@ == m.icon_id
    && r.topic_color@ == m.topic_color
    && r.prompt_template@ == m.prompt_template
    && r.total_cards == m.total_cards
    && r.due_cards == m.due_cards
    && r.pending_cards == m.pending_cards
    && r.completed_cards == m.completed_cards
    && r.daily_card_count == m.daily_card_count
    && r.daily_time_zone@ == m.daily_time_zone
    && r.daily_update_time@ == m.daily_update_time
    && r.compression_level@ == m.compression_level
    && r.grounding_strategy@ == m.grounding_strategy
    && r.image_strategy@ == m.image_strategy
}

/// Each field of the `AppTopicView` comes from the API's field of the same name.
pub proof fn lemma_app_topic_view_fields(r: AppTopicView, m: SpecAppTopicInfo)
    requires
        app_topic_view_matches(r, m),
    ensures
        r.id == m.id,
        r.name@ == m.name,
        r.tipcard_type@ == m.tipcard_type,
        r.icon_id@ == m.icon_id,
        r.topic_color@ == m.topic_color,
        r.prompt_template@ == m.prompt_template,
        r.total_cards == m.total_cards,
        r.due_cards == m.due_cards,
        r.pending_cards == m.pending_cards,
        r.completed_cards == m.completed_cards,
        r.daily_card_count == m.daily_card_count,
        r.daily_time_zone@ == m.daily_time_zone,
        r.daily_update_time@ == m.daily_update_time,
        r.compression_level@ == m.compression_level,
        r.grounding_strategy@ == m.grounding_strategy,
        r.image_strategy@ == m.image_strategy,
{
}

pub fn app_topic_view_from(m: AppTopicInfo) -> (r: AppTopicView)
    ensures
        app_topic_view_matches(r, m@),
{
    AppTopicView {
        id: m.id,
        name: m.name,
        tipcard_type: m.tipcard_type,
        icon_id: m.icon_id,
        topic_color: m.topic_color,
        prompt_template: m.prompt_template,
        total_cards: m.total_cards,
        due_cards: m.due_cards,
        pending_cards: m.pending_cards,
        completed_cards: m.completed_cards,
        daily_card_count: m.daily_card_count,
        daily_time_zone: m.daily_time_zone,
        daily_update_time: m.daily_update_time,
        compression_level: m.compression_level,
        grounding_strategy: m.grounding_strategy,
        image_strategy: m.image_strategy,
    }
}

/// The rows for `v`, in order.
pub fn app_topic_view_rows(v: Vec<AppTopicInfo>) -> (r: Vec<AppTopicView>)
    ensures
        r@.len() == v@.len(),
        forall|i: int| 0 <= i < v@.len() ==> app_topic_view_matches(#[trigger] r@[i], v@[i]@),
{
    let ghost orig = v@;
    let mut v = v;
    let mut out: Vec<AppTopicView> = Vec::new();
    while v.len() > 0
        invariant
            out@.len() + v@.len() == orig.len(),
            v@ == orig.skip(out@.len() as int),
            forall|i: int| 0 <= i < out@.len() ==> app_topic_view_matches(#[trigger] out@[i], orig[i]@),
        decreases v@.len(),
    {
        let ghost k: int = out@.len() as int;
        let m = v.remove(0);
        proof {
            assert(m == orig[k]);
            assert(v@ =~= orig.skip(k + 1));
        }
        out.push(app_topic_view_from(m));
    }
    out
}

/// A grounding document in the list; a blank URL is no URL.
#[derive(Clone, Debug, PartialEq)]
pub struct DocumentRow {
    pub id: i64,
    pub topic_ids: Vec<i64>,
    pub source_type: String,
    pub title: String,
    pub url: Option<String>,
    pub created_at: String,
}

/// `r` is the row for `m`.
pub open spec fn document_row_matches(r: DocumentRow, m: SpecDocumentInfo) -> bool {
    r.id == m.id
    && r.topic_ids@ == m.topic_ids
    && r.source_type@ == m.source_type
    && r.title@ == m.title
    && opt_view(r.url) == blank_to_none(m.url)
    && r.created_at@ == m.created_at
}

/// Each field of the `DocumentRow` comes from the API's field of the same name.
pub proof fn lemma_document_row_fields(r: DocumentRow, m: SpecDocumentInfo)
    requires
        document_row_matches(r, m),
    ensures
        r.id == m.id,
        r.topic_ids@ == m.topic_ids,
        r.source_type@ == m.source_type,
        r.title@ == m.title,
        opt_view(r.url) == blank_to_none(m.url),
        r.created_at@ == m.created_at,
{
}

pub fn document_row_from(m: DocumentInfo) -> (r: DocumentRow)
    ensures
        document_row_matches(r, m@),
{
    DocumentRow {
        id: m.id,
        topic_ids: m.topic_ids,
        source_type: m.source_type,
        title: m.title,
        url: empty_opt(m.url),
        created_at: m.created_at,
    }
}

/// The rows for `v`, in order.
pub fn document_row_rows(v: Vec<DocumentInfo>) -> (r: Vec<DocumentRow>)
    ensures
        r@.len() == v@.len(),
        forall|i: int| 0 <= i < v@.len() ==> document_row_matches(#[trigger] r@[i], v@[i]@),
{
    let ghost orig = v@;
    let mut v = v;
    let mut out: Vec<DocumentRow> = Vec::new();
    while v.len() > 0
        invariant
            out@.len() + v@.len() == orig.len(),
            v@ == orig.skip(out@.len() as int),
            forall|i: int| 0 <= i < out@.len() ==> document_row_matches(#[trigger] out@[i], orig[i]@),
        decreases v@.len(),
    {
        let ghost k: int = out@.len() as int;
        let m = v.remove(0);
        proof {
            assert(m == orig[k]);
            assert(v@ =~= orig.skip(k + 1));
        }
        out.push(document_row_from(m));
    }
    out
}

/// A grounding document with its content; a blank URL is no URL.
#[derive(Clone, Debug, PartialEq)]
pub struct DocumentDetailView {
    pub id: i64,
    pub source_type: String,
    pub title: String,
    pub url: Option<String>,
    pub content: String,
    pub created_at: String,
    pub topic_ids: Vec<i64>,
}

/// `r` is the row for `m`.
pub open spec fn document_detail_view_matches(r: DocumentDetailView, m: SpecDocumentDetailResponse) -> bool {
    r.id == m.id
    && r.source_type@ == m.source_type
    && r.title@ == m.title
    && opt_view(r.url) == blank_to_none(m.url)
    && r.content@ == m.content
    && r.created_at@ == m.created_at
    && r.topic_ids@ == m.topic_ids
}

/// Each field of the `DocumentDetailView` comes from the API's field of the same name.
pub proof fn lemma_document_detail_view_fields(r: DocumentDetailView, m: SpecDocumentDetailResponse)
    requires
        document_detail_view_matches(r, m),
    ensures
        r.id == m.id,
        r.source_type@ == m.source_type,
        r.title@ == m.title,
        opt_view(r.url) == blank_to_none(m.url),
        r.content@ == m.content,
        r.created_at@ == m.created_at,
        r.topic_ids@ == m.topic_ids,
{
}

pub fn document_detail_view_from(m: DocumentDetailResponse) -> (r: DocumentDetailView)
    ensures
        document_detail_view_matches(r, m@),
{
    DocumentDetailView {
        id: m.id,
        source_type: m.source_type,
        title: m.title,
        url: empty_opt(m.url),
        content: m.content,
        created_at: m.created_at,
        topic_ids: m.topic_ids,
    }
}

/// An image of the local pool; a blank description is none.
#[derive(Clone, Debug, PartialEq)]
pub struct PoolImageRow {
    pub id: i64,
    pub name: String,
    pub description: Option<String>,
    pub tags: Vec<String>,
    pub created_at: String,
}

/// `r` is the row for `m`.
pub open spec fn pool_image_row_matches(r: PoolImageRow, m: SpecPoolImageInfo) -> bool {
    r.id == m.id
    && r.name@ == m.name
    && opt_view(r.description) == blank_to_none(m.description)
    && strings_view(r.tags@) == m.tags
    && r.created_at@ == m.created_at
}

/// Each field of the `PoolImageRow` comes from the API's field of the same name.
pub proof fn lemma_pool_image_row_fields(r: PoolImageRow, m: SpecPoolImageInfo)
    requires
        pool_image_row_matches(r, m),
    ensures
        r.id == m.id,
        r.name@ == m.name,
        opt_view(r.description) == blank_to_none(m.description),
        strings_view(r.tags@) == m.tags,
        r.created_at@ == m.created_at,
{
}

pub fn pool_image_row_from(m: PoolImageInfo) -> (r: PoolImageRow)
    ensures
        pool_image_row_matches(r, m@),
{
    PoolImageRow {
        id: m.id,
        name: m.name,
        description: empty_opt(m.description),
        tags: m.tags,
        created_at: m.created_at,
    }
}

/// The rows for `v`, in order.
pub fn pool_image_row_rows(v: Vec<PoolImageInfo>) -> (r: Vec<PoolImageRow>)
    ensures
        r@.len() == v@.len(),
        forall|i: int| 0 <= i < v@.len() ==> pool_image_row_matches(#[trigger] r@[i], v@[i]@),
{
    let ghost orig = v@;
    let mut v = v;
    let mut out: Vec<PoolImageRow> = Vec::new();
    while v.len() > 0
        invariant
            out@.len() + v@.len() == orig.len(),
            v@ == orig.skip(out@.len() as int),
            forall|i: int| 0 <= i < out@.len() ==> pool_image_row_matches(#[trigger] out@[i], orig[i]@),
        decreases v@.len(),
    {
        let ghost k: int = out@.len() as int;
        let m = v.remove(0);
        proof {
            assert(m == orig[k]);
            assert(v@ =~= orig.skip(k + 1));
        }
        out.push(pool_image_row_from(m));
    }
    out
}

/// A link found on a web page.
#[derive(Clone, Debug, PartialEq)]
pub struct ExploredLinkView {
    pub title: String,
    pub url: String,
}

/// `r` is the row for `m`.
pub open spec fn explored_link_view_matches(r: ExploredLinkView, m: SpecExploredLink) -> bool {
    r.title@ == m.title
    && r.url@ == m.url
}

/// Each field of the `ExploredLinkView` comes from the API's field of the same name.
pub proof fn lemma_explored_link_view_fields(r: ExploredLinkView, m: SpecExploredLink)
    requires
        explored_link_view_matches(r, m),
    ensures
        r.title@ == m.title,
        r.url@ == m.url,
{
}

pub fn explored_link_view_from(m: ExploredLink) -> (r: ExploredLinkView)
    ensures
        explored_link_view_matches(r, m@),
{
    ExploredLinkView {
        title: m.title,
        url: m.url,
    }
}

/// The rows for `v`, in order.
pub fn explored_link_view_rows(v: Vec<ExploredLink>) -> (r: Vec<ExploredLinkView>)
    ensures
        r@.len() == v@.len(),
        forall|i: int| 0 <= i < v@.len() ==> explored_link_view_matches(#[trigger] r@[i], v@[i]@),
{
    let ghost orig = v@;
    let mut v = v;
    let mut out: Vec<ExploredLinkView> = Vec::new();
    while v.len() > 0
        invariant
            out@.len() + v@.len() == orig.len(),
            v@ == orig.skip(out@.len() as int),
            forall|i: int| 0 <= i < out@.len() ==> explored_link_view_matches(#[trigger] out@[i], orig[i]@),
        decreases v@.len(),
    {
        let ghost k: int = out@.len() as int;
        let m = v.remove(0);
        proof {
            assert(m == orig[k]);
            assert(v@ =~= orig.skip(k + 1));
        }
        out.push(explored_link_view_from(m));
    }
    out
}

} // verus!
