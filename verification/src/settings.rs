//! The settings page: what the API reports, enriched with the server
//! version, and the patch that changes some of the settings.

use vstd::prelude::*;
use crate::client::{opt_view, ApiError, ApiResult};
use crate::text::owned;
use crate::ops::{unexpected, unexpected_error};
use crate::pb_req::{Op, SpecOp, SpecUpdateSettingsRequest, UpdateSettingsRequest};
use crate::pb_resp::{ApiResponse, ResponseResult, SettingsResponse, SpecResponseResult, SpecSettingsResponse};

verus! {

/// The settings as the settings page shows them.
#[derive(Clone, Debug, PartialEq)]
pub struct SettingsView {
    pub server_version: String,
    pub build_sha: String,
    pub model: String,
    pub vision_model: String,
    pub compress_model: String,
    pub template: String,
    pub api_key: String,
    pub base_url: String,
    pub compress_base_url: String,
    pub reasoning_effort: String,
    pub compress_reasoning_effort: String,
    pub compression_level: String,
    pub color_scheme: String,
    pub transparency: String,
    pub blur_intensity: String,
    pub autoupdate_enabled: bool,
    pub autoupdate_repo: String,
    pub autoupdate_branch: String,
    pub autoupdate_check_interval_secs: u64,
    pub autoupdate_command: String,
    pub autoupdate_last_seen_sha: String,
    pub daily_time_zone: String,
    pub daily_update_time: String,
    pub max_active_cards: u64,
    pub grounding_strategy: String,
    pub image_strategy: String,
    pub search_provider: String,
    pub scrape_provider: String,
    pub search_api_key: String,
    pub search_base_url: String,
    pub image_sources: String,
    pub grounding_model: String,
    pub grounding_reasoning_effort: String,
}

/// `v` shows the settings `s` and the server version `version` (version, build).
pub open spec fn settings_view_matches(
    v: SettingsView,
    s: SpecSettingsResponse,
    version: (Seq<char>, Seq<char>),
) -> bool {
    &&& v.server_version@ == version.0
    &&& v.build_sha@ == version.1
    &&& v.model@ == s.model
    &&& v.vision_model@ == s.vision_model
    &&& v.compress_model@ == s.compress_model
    &&& v.template@ == s.template
    &&& v.api_key@ == s.api_key
    &&& v.base_url@ == s.base_url
    &&& v.compress_base_url@ == s.compress_base_url
    &&& v.reasoning_effort@ == s.reasoning_effort
    &&& v.compress_reasoning_effort@ == s.compress_reasoning_effort
    &&& v.compression_level@ == s.compression_level
    &&& v.color_scheme@ == s.color_scheme
    &&& v.transparency@ == s.transparency
    &&& v.blur_intensity@ == s.blur_intensity
    &&& v.autoupdate_enabled == s.autoupdate_enabled
    &&& v.autoupdate_repo@ == s.autoupdate_repo
    &&& v.autoupdate_branch@ == s.autoupdate_branch
    &&& v.autoupdate_check_interval_secs == s.autoupdate_check_interval_secs
    &&& v.autoupdate_command@ == s.autoupdate_command
    &&& v.autoupdate_last_seen_sha@ == s.autoupdate_last_seen_sha
    &&& v.daily_time_zone@ == s.daily_time_zone
    &&& v.daily_update_time@ == s.daily_update_time
    &&& v.max_active_cards == s.max_active_cards
    &&& v.grounding_strategy@ == s.grounding_strategy
    &&& v.image_strategy@ == s.image_strategy
    &&& v.search_provider@ == s.search_provider
    &&& v.scrape_provider@ == s.scrape_provider
    &&& v.search_api_key@ == s.search_api_key
    &&& v.search_base_url@ == s.search_base_url
    &&& v.image_sources@ == s.image_sources
    &&& v.grounding_model@ == s.grounding_model
    &&& v.grounding_reasoning_effort@ == s.grounding_reasoning_effort
}

/// The settings page shows each setting the server reported in the place
/// of the same name, next to the reported server version and build.
pub proof fn lemma_settings_view_fields(
    v: SettingsView,
    s: SpecSettingsResponse,
    version: (Seq<char>, Seq<char>),
)
    requires
        settings_view_matches(v, s, version),
    ensures
        v.server_version@ == version.0,
        v.build_sha@ == version.1,
        v.model@ == s.model,
        v.vision_model@ == s.vision_model,
        v.compress_model@ == s.compress_model,
        v.template@ == s.template,
        v.api_key@ == s.api_key,
        v.base_url@ == s.base_url,
        v.compress_base_url@ == s.compress_base_url,
        v.reasoning_effort@ == s.reasoning_effort,
        v.compress_reasoning_effort@ == s.compress_reasoning_effort,
        v.compression_level@ == s.compression_level,
        v.color_scheme@ == s.color_scheme,
        v.transparency@ == s.transparency,
        v.blur_intensity@ == s.blur_intensity,
        v.autoupdate_enabled == s.autoupdate_enabled,
        v.autoupdate_repo@ == s.autoupdate_repo,
        v.autoupdate_branch@ == s.autoupdate_branch,
        v.autoupdate_check_interval_secs == s.autoupdate_check_interval_secs,
        v.autoupdate_command@ == s.autoupdate_command,
        v.autoupdate_last_seen_sha@ == s.autoupdate_last_seen_sha,
        v.daily_time_zone@ == s.daily_time_zone,
        v.daily_update_time@ == s.daily_update_time,
        v.max_active_cards == s.max_active_cards,
        v.grounding_strategy@ == s.grounding_strategy,
        v.image_strategy@ == s.image_strategy,
        v.search_provider@ == s.search_provider,
        v.scrape_provider@ == s.scrape_provider,
        v.search_api_key@ == s.search_api_key,
        v.search_base_url@ == s.search_base_url,
        v.image_sources@ == s.image_sources,
        v.grounding_model@ == s.grounding_model,
        v.grounding_reasoning_effort@ == s.grounding_reasoning_effort,
{
}

/// The server version and build that an API info call reported; empty when
/// the call failed or answered something else.
pub open spec fn reported_version(info: Result<ApiResponse, ApiError>) -> (Seq<char>, Seq<char>) {
    match info {
        Ok(resp) => match resp@.result {
            Some(SpecResponseResult::ApiInfo(i)) => (i.server_version, i.build_sha),
            _ => (Seq::empty(), Seq::empty()),
        },
        Err(_) => (Seq::empty(), Seq::empty()),
    }
}

/// The settings of a settings response.
pub fn settings_result(response: ApiResponse) -> (r: ApiResult<SettingsResponse>)
    ensures
        match response@.result {
            Some(SpecResponseResult::Settings(s)) => r matches Ok(v) && v@ == s,
            _ => r matches Err(e) && e@ == unexpected_error("settings"@),
        },
{
    match response.result {
        Some(ResponseResult::Settings(s)) => Ok(s),
        _ => unexpected("settings"),
    }
}

/// The server version and build of an API info call, if it succeeded.
pub fn version_of(info: ApiResult<ApiResponse>) -> (r: (String, String))
    ensures
        (r.0@, r.1@) == reported_version(info),
{
    match info {
        Ok(resp) => match resp.result {
            Some(ResponseResult::ApiInfo(i)) => (i.server_version, i.build_sha),
            _ => (String::new(), String::new()),
        },
        Err(_) => (String::new(), String::new()),
    }
}

/// The settings page for `settings`, with the version an API info call reported.
pub fn settings_view(settings: SettingsResponse, info: ApiResult<ApiResponse>) -> (r: SettingsView)
    ensures
        settings_view_matches(r, settings@, reported_version(info)),
{
    let (server_version, build_sha) = version_of(info);
    SettingsView {
        server_version,
        build_sha,
        model: settings.model,
        vision_model: settings.vision_model,
        compress_model: settings.compress_model,
        template: settings.template,
        api_key: settings.api_key,
        base_url: settings.base_url,
        compress_base_url: settings.compress_base_url,
        reasoning_effort: settings.reasoning_effort,
        compress_reasoning_effort: settings.compress_reasoning_effort,
        compression_level: settings.compression_level,
        color_scheme: settings.color_scheme,
        transparency: settings.transparency,
        blur_intensity: settings.blur_intensity,
        autoupdate_enabled: settings.autoupdate_enabled,
        autoupdate_repo: settings.autoupdate_repo,
        autoupdate_branch: settings.autoupdate_branch,
        autoupdate_check_interval_secs: settings.autoupdate_check_interval_secs,
        autoupdate_command: settings.autoupdate_command,
        autoupdate_last_seen_sha: settings.autoupdate_last_seen_sha,
        daily_time_zone: settings.daily_time_zone,
        daily_update_time: settings.daily_update_time,
        max_active_cards: settings.max_active_cards,
        grounding_strategy: settings.grounding_strategy,
        image_strategy: settings.image_strategy,
        search_provider: settings.search_provider,
        scrape_provider: settings.scrape_provider,
        search_api_key: settings.search_api_key,
        search_base_url: settings.search_base_url,
        image_sources: settings.image_sources,
        grounding_model: settings.grounding_model,
        grounding_reasoning_effort: settings.grounding_reasoning_effort,
    }
}

/// Settings to change; a field left `None` stays as it is.
#[derive(Clone, Debug, Default)]
pub struct SettingsPatch {
    pub vision_model: Option<String>,
    pub model: Option<String>,
    pub compress_model: Option<String>,
    pub template: Option<String>,
    pub api_key: Option<String>,
    pub base_url: Option<String>,
    pub compress_base_url: Option<String>,
    pub reasoning_effort: Option<String>,
    pub compress_reasoning_effort: Option<String>,
    pub compression_level: Option<String>,
    pub autoupdate_enabled: Option<bool>,
    pub autoupdate_repo: Option<String>,
    pub autoupdate_branch: Option<String>,
    pub max_active_cards: Option<u64>,
    pub grounding_strategy: Option<String>,
    pub image_strategy: Option<String>,
    pub search_api_key: Option<String>,
    pub search_provider: Option<String>,
    pub scrape_provider: Option<String>,
    pub search_base_url: Option<String>,
    pub image_sources: Option<String>,
    pub autoupdate_check_interval_secs: Option<u64>,
    pub autoupdate_command: Option<String>,
    pub daily_time_zone: Option<String>,
    pub daily_update_time: Option<String>,
    pub grounding_model: Option<String>,
    pub grounding_reasoning_effort: Option<String>,
    pub color_scheme: Option<String>,
    pub transparency: Option<String>,
    pub blur_intensity: Option<String>,
}

/// The request that changes what `p` sets and nothing else.
pub open spec fn settings_update(p: SettingsPatch) -> SpecUpdateSettingsRequest {
    SpecUpdateSettingsRequest {
        vision_model: opt_view(p.vision_model),
        model: opt_view(p.model),
        compress_model: opt_view(p.compress_model),
        template: opt_view(p.template),
        api_key: opt_view(p.api_key),
        base_url: opt_view(p.base_url),
        compress_base_url: opt_view(p.compress_base_url),
        reasoning_effort: opt_view(p.reasoning_effort),
        compress_reasoning_effort: opt_view(p.compress_reasoning_effort),
        compression_level: opt_view(p.compression_level),
        autoupdate_enabled: p.autoupdate_enabled,
        autoupdate_repo: opt_view(p.autoupdate_repo),
        autoupdate_branch: opt_view(p.autoupdate_branch),
        max_active_cards: p.max_active_cards,
        grounding_strategy: opt_view(p.grounding_strategy),
        image_strategy: opt_view(p.image_strategy),
        search_api_key: opt_view(p.search_api_key),
        search_provider: opt_view(p.search_provider),
        scrape_provider: opt_view(p.scrape_provider),
        search_base_url: opt_view(p.search_base_url),
        image_sources: opt_view(p.image_sources),
        autoupdate_check_interval_secs: p.autoupdate_check_interval_secs,
        autoupdate_command: opt_view(p.autoupdate_command),
        daily_time_zone: opt_view(p.daily_time_zone),
        daily_update_time: opt_view(p.daily_update_time),
        grounding_model: opt_view(p.grounding_model),
        grounding_reasoning_effort: opt_view(p.grounding_reasoning_effort),
        color_scheme: opt_view(p.color_scheme),
        transparency: opt_view(p.transparency),
        blur_intensity: opt_view(p.blur_intensity),
    }
}

/// The request sets exactly what the patch sets: each of its fields is
/// the patch's field of the same name, unset where the patch leaves it.
pub proof fn lemma_settings_update_fields(p: SettingsPatch)
    ensures
        settings_update(p).vision_model == opt_view(p.vision_model),
        settings_update(p).model == opt_view(p.model),
        settings_update(p).compress_model == opt_view(p.compress_model),
        settings_update(p).template == opt_view(p.template),
        settings_update(p).api_key == opt_view(p.api_key),
        settings_update(p).base_url == opt_view(p.base_url),
        settings_update(p).compress_base_url == opt_view(p.compress_base_url),
        settings_update(p).reasoning_effort == opt_view(p.reasoning_effort),
        settings_update(p).compress_reasoning_effort == opt_view(p.compress_reasoning_effort),
        settings_update(p).compression_level == opt_view(p.compression_level),
        settings_update(p).autoupdate_enabled == p.autoupdate_enabled,
        settings_update(p).autoupdate_repo == opt_view(p.autoupdate_repo),
        settings_update(p).autoupdate_branch == opt_view(p.autoupdate_branch),
        settings_update(p).max_active_cards == p.max_active_cards,
        settings_update(p).grounding_strategy == opt_view(p.grounding_strategy),
        settings_update(p).image_strategy == opt_view(p.image_strategy),
        settings_update(p).search_api_key == opt_view(p.search_api_key),
        settings_update(p).search_provider == opt_view(p.search_provider),
        settings_update(p).scrape_provider == opt_view(p.scrape_provider),
        settings_update(p).search_base_url == opt_view(p.search_base_url),
        settings_update(p).image_sources == opt_view(p.image_sources),
        settings_update(p).autoupdate_check_interval_secs == p.autoupdate_check_interval_secs,
        settings_update(p).autoupdate_command == opt_view(p.autoupdate_command),
        settings_update(p).daily_time_zone == opt_view(p.daily_time_zone),
        settings_update(p).daily_update_time == opt_view(p.daily_update_time),
        settings_update(p).grounding_model == opt_view(p.grounding_model),
        settings_update(p).grounding_reasoning_effort == opt_view(p.grounding_reasoning_effort),
        settings_update(p).color_scheme == opt_view(p.color_scheme),
        settings_update(p).transparency == opt_view(p.transparency),
        settings_update(p).blur_intensity == opt_view(p.blur_intensity),
{
}

/// The operation that applies `patch`.
pub fn update_settings_op(patch: SettingsPatch) -> (r: Op)
    ensures
        r@ == SpecOp::UpdateSettings(settings_update(patch)),
{
    let ghost p = patch;
    let request = UpdateSettingsRequest {
        vision_model: patch.vision_model,
        model: patch.model,
        compress_model: patch.compress_model,
        template: patch.template,
        api_key: patch.api_key,
        base_url: patch.base_url,
        compress_base_url: patch.compress_base_url,
        reasoning_effort: patch.reasoning_effort,
        compress_reasoning_effort: patch.compress_reasoning_effort,
        compression_level: patch.compression_level,
        autoupdate_enabled: patch.autoupdate_enabled,
        autoupdate_repo: patch.autoupdate_repo,
        autoupdate_branch: patch.autoupdate_branch,
        max_active_cards: patch.max_active_cards,
        grounding_strategy: patch.grounding_strategy,
        image_strategy: patch.image_strategy,
        search_api_key: patch.search_api_key,
        search_provider: patch.search_provider,
        scrape_provider: patch.scrape_provider,
        search_base_url: patch.search_base_url,
        image_sources: patch.image_sources,
        autoupdate_check_interval_secs: patch.autoupdate_check_interval_secs,
        autoupdate_command: patch.autoupdate_command,
        daily_time_zone: patch.daily_time_zone,
        daily_update_time: patch.daily_update_time,
        grounding_model: patch.grounding_model,
        grounding_reasoning_effort: patch.grounding_reasoning_effort,
        color_scheme: patch.color_scheme,
        transparency: patch.transparency,
        blur_intensity: patch.blur_intensity,
    };
    Op::UpdateSettings(request)
}

// ------------------------------------------------------------------
// Grounding settings panel
// ------------------------------------------------------------------

/// The scrape provider shown when the server reports none.
pub fn default_scrape_provider() -> (r: String)
    ensures
        r@ == "scrapling"@,
{
    owned("scrapling")
}

/// The grounding part of the settings, as its panel shows it.
#[derive(Clone, Debug, PartialEq)]
pub struct GroundingSettingsRes {
    pub grounding_strategy: String,
    pub grounding_model: String,
    pub grounding_reasoning_effort: String,
    pub image_strategy: String,
    pub search_provider: String,
    pub scrape_provider: String,
    pub search_api_key: String,
    pub search_base_url: String,
}

impl GroundingSettingsRes {
    /// The grounding settings of `s`; an empty scrape provider shows the default.
    pub fn from_view(s: SettingsView) -> (r: GroundingSettingsRes)
        ensures
            r.grounding_strategy@ == s.grounding_strategy@,
            r.grounding_model@ == s.grounding_model@,
            r.grounding_reasoning_effort@ == s.grounding_reasoning_effort@,
            r.image_strategy@ == s.image_strategy@,
            r.search_provider@ == s.search_provider@,
            r.scrape_provider@ == (if s.scrape_provider@.len() == 0 {
                "scrapling"@
            } else {
                s.scrape_provider@
            }),
            r.search_api_key@ == s.search_api_key@,
            r.search_base_url@ == s.search_base_url@,
    {
        let scrape_provider = if s.scrape_provider.as_str().is_empty() {
            default_scrape_provider()
        } else {
            s.scrape_provider
        };
        GroundingSettingsRes {
            grounding_strategy: s.grounding_strategy,
            grounding_model: s.grounding_model,
            grounding_reasoning_effort: s.grounding_reasoning_effort,
            image_strategy: s.image_strategy,
            search_provider: s.search_provider,
            scrape_provider,
            search_api_key: s.search_api_key,
            search_base_url: s.search_base_url,
        }
    }
}

/// Changes to the grounding settings; `None` leaves a setting as it is.
#[derive(Clone, Debug, Default)]
pub struct GroundingSettingsPatch {
    pub grounding_strategy: Option<String>,
    pub grounding_model: Option<String>,
    pub grounding_reasoning_effort: Option<String>,
    pub image_strategy: Option<String>,
    pub search_provider: Option<String>,
    pub scrape_provider: Option<String>,
    pub search_api_key: Option<String>,
    pub search_base_url: Option<String>,
}

/// The value of a [`GroundingSettingsPatch`].
pub struct GroundingPatchModel {
    pub grounding_strategy: Option<Seq<char>>,
    pub grounding_model: Option<Seq<char>>,
    pub grounding_reasoning_effort: Option<Seq<char>>,
    pub image_strategy: Option<Seq<char>>,
    pub search_provider: Option<Seq<char>>,
    pub scrape_provider: Option<Seq<char>>,
    pub search_api_key: Option<Seq<char>>,
    pub search_base_url: Option<Seq<char>>,
}

impl View for GroundingSettingsPatch {
    type V = GroundingPatchModel;

    open spec fn view(&self) -> GroundingPatchModel {
        GroundingPatchModel {
            grounding_strategy: opt_view(self.grounding_strategy),
            grounding_model: opt_view(self.grounding_model),
            grounding_reasoning_effort: opt_view(self.grounding_reasoning_effort),
            image_strategy: opt_view(self.image_strategy),
            search_provider: opt_view(self.search_provider),
            scrape_provider: opt_view(self.scrape_provider),
            search_api_key: opt_view(self.search_api_key),
            search_base_url: opt_view(self.search_base_url),
        }
    }
}

/// A later change wins over an earlier one.
pub open spec fn later(a: Option<Seq<char>>, b: Option<Seq<char>>) -> Option<Seq<char>> {
    if b is Some {
        b
    } else {
        a
    }
}

/// `a` with the changes of `b` laid over it.
pub open spec fn merged_patch(a: GroundingPatchModel, b: GroundingPatchModel) -> GroundingPatchModel {
    GroundingPatchModel {
        grounding_strategy: later(a.grounding_strategy, b.grounding_strategy),
        grounding_model: later(a.grounding_model, b.grounding_model),
        grounding_reasoning_effort: later(a.grounding_reasoning_effort, b.grounding_reasoning_effort),
        image_strategy: later(a.image_strategy, b.image_strategy),
        search_provider: later(a.search_provider, b.search_provider),
        scrape_provider: later(a.scrape_provider, b.scrape_provider),
        search_api_key: later(a.search_api_key, b.search_api_key),
        search_base_url: later(a.search_base_url, b.search_base_url),
    }
}

/// The patch that changes nothing.
pub open spec fn no_change() -> GroundingPatchModel {
    GroundingPatchModel {
        grounding_strategy: None,
        grounding_model: None,
        grounding_reasoning_effort: None,
        image_strategy: None,
        search_provider: None,
        scrape_provider: None,
        search_api_key: None,
        search_base_url: None,
    }
}

fn later_of(a: Option<String>, b: Option<String>) -> (r: Option<String>)
    ensures
        opt_view(r) == later(opt_view(a), opt_view(b)),
{
    if b.is_some() {
        b
    } else {
        a
    }
}

impl GroundingSettingsPatch {
    /// Lays the changes of `other` over this patch.
    pub fn merge_from(&mut self, other: GroundingSettingsPatch)
        ensures
            final(self)@ == merged_patch(old(self)@, other@),
    {
        let mut current = GroundingSettingsPatch {
            grounding_strategy: None,
            grounding_model: None,
            grounding_reasoning_effort: None,
            image_strategy: None,
            search_provider: None,
            scrape_provider: None,
            search_api_key: None,
            search_base_url: None,
        };
        std::mem::swap(&mut current, self);
        *self = GroundingSettingsPatch {
            grounding_strategy: later_of(current.grounding_strategy, other.grounding_strategy),
            grounding_model: later_of(current.grounding_model, other.grounding_model),
            grounding_reasoning_effort: later_of(current.grounding_reasoning_effort, other.grounding_reasoning_effort),
            image_strategy: later_of(current.image_strategy, other.image_strategy),
            search_provider: later_of(current.search_provider, other.search_provider),
            scrape_provider: later_of(current.scrape_provider, other.scrape_provider),
            search_api_key: later_of(current.search_api_key, other.search_api_key),
            search_base_url: later_of(current.search_base_url, other.search_base_url),
        };
    }

    /// The settings patch that makes these changes and no others.
    pub fn to_v1(&self) -> (r: SettingsPatch)
        ensures
            r.vision_model is None,
            r.model is None,
            r.compress_model is None,
            r.template is None,
            r.api_key is None,
            r.base_url is None,
            r.compress_base_url is None,
            r.reasoning_effort is None,
            r.compress_reasoning_effort is None,
            r.compression_level is None,
            r.autoupdate_enabled is None,
            r.autoupdate_repo is None,
            r.autoupdate_branch is None,
            r.max_active_cards is None,
            opt_view(r.grounding_strategy) == opt_view(self.grounding_strategy),
            opt_view(r.image_strategy) == opt_view(self.image_strategy),
            opt_view(r.search_api_key) == opt_view(self.search_api_key),
            opt_view(r.search_provider) == opt_view(self.search_provider),
            opt_view(r.scrape_provider) == opt_view(self.scrape_provider),
            opt_view(r.search_base_url) == opt_view(self.search_base_url),
            r.image_sources is None,
            r.autoupdate_check_interval_secs is None,
            r.autoupdate_command is None,
            r.daily_time_zone is None,
            r.daily_update_time is None,
            opt_view(r.grounding_model) == opt_view(self.grounding_model),
            opt_view(r.grounding_reasoning_effort) == opt_view(self.grounding_reasoning_effort),
            r.color_scheme is None,
            r.transparency is None,
            r.blur_intensity is None,
    {
        SettingsPatch {
            vision_model: None,
            model: None,
            compress_model: None,
            template: None,
            api_key: None,
            base_url: None,
            compress_base_url: None,
            reasoning_effort: None,
            compress_reasoning_effort: None,
            compression_level: None,
            autoupdate_enabled: None,
            autoupdate_repo: None,
            autoupdate_branch: None,
            max_active_cards: None,
            grounding_strategy: self.grounding_strategy.clone(),
            image_strategy: self.image_strategy.clone(),
            search_api_key: self.search_api_key.clone(),
            search_provider: self.search_provider.clone(),
            scrape_provider: self.scrape_provider.clone(),
            search_base_url: self.search_base_url.clone(),
            image_sources: None,
            autoupdate_check_interval_secs: None,
            autoupdate_command: None,
            daily_time_zone: None,
            daily_update_time: None,
            grounding_model: self.grounding_model.clone(),
            grounding_reasoning_effort: self.grounding_reasoning_effort.clone(),
            color_scheme: None,
            transparency: None,
            blur_intensity: None,
        }
    }
}

/// The later patch wins: a setting it changes takes its value, and one it
/// leaves keeps the value of the earlier patch.
pub proof fn lemma_merge_later_wins(a: GroundingPatchModel, b: GroundingPatchModel)
    ensures
        b.grounding_strategy matches Some(v) ==> merged_patch(a, b).grounding_strategy == Some(v),
        b.grounding_strategy is None ==> merged_patch(a, b).grounding_strategy == a.grounding_strategy,
        b.grounding_model matches Some(v) ==> merged_patch(a, b).grounding_model == Some(v),
        b.grounding_model is None ==> merged_patch(a, b).grounding_model == a.grounding_model,
        b.grounding_reasoning_effort matches Some(v) ==> merged_patch(a, b).grounding_reasoning_effort == Some(v),
        b.grounding_reasoning_effort is None ==> merged_patch(a, b).grounding_reasoning_effort == a.grounding_reasoning_effort,
        b.image_strategy matches Some(v) ==> merged_patch(a, b).image_strategy == Some(v),
        b.image_strategy is None ==> merged_patch(a, b).image_strategy == a.image_strategy,
        b.search_provider matches Some(v) ==> merged_patch(a, b).search_provider == Some(v),
        b.search_provider is None ==> merged_patch(a, b).search_provider == a.search_provider,
        b.scrape_provider matches Some(v) ==> merged_patch(a, b).scrape_provider == Some(v),
        b.scrape_provider is None ==> merged_patch(a, b).scrape_provider == a.scrape_provider,
        b.search_api_key matches Some(v) ==> merged_patch(a, b).search_api_key == Some(v),
        b.search_api_key is None ==> merged_patch(a, b).search_api_key == a.search_api_key,
        b.search_base_url matches Some(v) ==> merged_patch(a, b).search_base_url == Some(v),
        b.search_base_url is None ==> merged_patch(a, b).search_base_url == a.search_base_url,
{
}

/// Laying the empty patch over a patch, or a patch over the empty one,
/// changes nothing.
pub proof fn lemma_merge_no_change(p: GroundingPatchModel)
    ensures
        merged_patch(p, no_change()) == p,
        merged_patch(no_change(), p) == p,
{
}

/// Laying a patch over itself changes nothing.
pub proof fn lemma_merge_idempotent(p: GroundingPatchModel)
    ensures
        merged_patch(p, p) == p,
{
}

/// Patches can be merged in any grouping.
pub proof fn lemma_merge_associative(a: GroundingPatchModel, b: GroundingPatchModel, c: GroundingPatchModel)
    ensures
        merged_patch(merged_patch(a, b), c) == merged_patch(a, merged_patch(b, c)),
{
}

} // verus!
