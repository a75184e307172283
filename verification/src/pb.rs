//! The protobuf messages of the API, by name.

pub use crate::pb_req::{Empty, GetByIdRequest, DeleteByIdRequest, ListFlowCardsRequest, PinTipcardRequest, TipsRequestV1, ReviewAndAdvanceRequest, ReviewRequestV1, ContinueDailyReviewRequest, ForceDailyRefreshRequest, UpdateSettingsRequest, CreateApiKeyRequest, UpdateTopicRequest, AddDocumentRequest, UploadDocumentRequest, AttachDocumentTopicRequest, ExploreLinkRequest, AddPoolImageRequest, ApiRequest, ApiV1Request, Op};
pub use crate::pb_card::{ApiError, TipcardImageInfo, CardSource, FlowCardInfo, FlowCardPageResponse, TipcardDetailResponse, TipInfo, TipsResponse, ReviewAndAdvanceResponse, TipcardListItem, TipcardListResponse};
pub use crate::pb_resp::{ContinueDailyReviewResponse, ForceDailyRefreshResponse, SettingsResponse, ApiInfoResponse, VisionModelTestResponse, ApiKeyInfo, ApiKeyListResponse, ApiKeyCreatedResponse, SummaryResponse, AppTopicInfo, AppTopicListResponse, DocumentInfo, DocumentListResponse, DocumentDetailResponse, ExploredLink, ExploredLinksResponse, PoolImageInfo, PoolImageListResponse, PoolImageCreatedResponse, ApiResponse, ApiV1Response, ResponseResult, Outcome};
