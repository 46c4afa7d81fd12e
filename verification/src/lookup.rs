//! Asking a provider: what is asked, when it may be asked, and what its reply
//! means.

use vstd::prelude::*;
use vstd::utf8::*;
use crate::consts;
use crate::context::{MediaContext, ProviderMediaContext};
use crate::error::{self, opt_text, refuse, SegmentError};
use crate::jobs;
use crate::json::{self, text_value, Json, JsonNumber, JsonValue};
use crate::normalize::{self, redact_provider_url};
use crate::outside;
use crate::quantity::{self, millis_string};
use crate::responses;
use crate::runs::BuiltinProviderRefreshOutcome;
use crate::settings::{self, provider_base_url, provider_cache_ttl_seconds, provider_rate_limit_per_minute};
use crate::text;

verus! {

/// What a lookup came to, with the response where there is one.
#[derive(Debug)]
pub struct ProviderLookupResult {
    pub outcome: BuiltinProviderRefreshOutcome,
    pub response: Option<JsonValue>,
}

/// Whether a lookup has this outcome; no candidate is counted yet.
pub open spec fn lookup_is(
    r: ProviderLookupResult,
    provider_kind: Seq<char>,
    status: Seq<char>,
    cache_hit: bool,
    reason: Option<Seq<char>>,
    response: Option<Json>,
) -> bool {
    &&& r.outcome.provider_kind@ == provider_kind
    &&& r.outcome.enabled
    &&& r.outcome.status@ == status
    &&& r.outcome.cache_hit == cache_hit
    &&& r.outcome.candidate_count == 0
    &&& r.outcome.accepted_count == 0
    &&& r.outcome.rejected_count == 0
    &&& opt_text(r.outcome.reason) == reason
    &&& json::opt_value(r.response) == response
}

fn lookup_result(
    provider_kind: &str,
    status: &str,
    cache_hit: bool,
    reason: Option<String>,
    response: Option<JsonValue>,
) -> (r: ProviderLookupResult)
    ensures
        lookup_is(
            r,
            provider_kind@,
            status@,
            cache_hit,
            opt_text(reason),
            json::opt_value(response),
        ),
{
    ProviderLookupResult {
        outcome: BuiltinProviderRefreshOutcome {
            provider_kind: provider_kind.to_owned(),
            enabled: true,
            status: status.to_owned(),
            cache_hit,
            candidate_count: 0,
            accepted_count: 0,
            rejected_count: 0,
            reason,
        },
        response,
    }
}

/// A provider that is not asked, with the reason.
pub fn provider_skipped(provider_kind: &str, reason: &str) -> (r: ProviderLookupResult)
    ensures
        lookup_is(r, provider_kind@, "skipped"@, false, Some(reason@), None),
{
    lookup_result(provider_kind, "skipped", false, Some(reason.to_owned()), None)
}

/// A provider that may not be asked for now.
pub fn provider_rate_limited(provider_kind: &str) -> (r: ProviderLookupResult)
    ensures
        lookup_is(
            r,
            provider_kind@,
            "rate_limited"@,
            false,
            Some("provider_rate_limit_exceeded"@),
            None,
        ),
{
    let reason = Some("provider_rate_limit_exceeded".to_owned());
    lookup_result(provider_kind, "rate_limited", false, reason, None)
}

/// What is left of an earlier reply.
#[derive(Debug)]
pub struct CachedProviderResponse {
    pub status: String,
    pub response: Option<JsonValue>,
    pub reason: Option<String>,
}

/// What a stored error says: its message, else its status.
pub fn cached_error_detail(stored: Option<&JsonValue>) -> (r: Option<JsonValue>)
    ensures
        json::opt_value(r) == match stored {
            Some(e) => json::json_get_either(e@, "error"@, "status"@),
            None => None,
        },
{
    match stored {
        Some(e) => match e.get_either("error", "status") {
            Some(v) => Some(v.dup()),
            None => None,
        },
        None => None,
    }
}

/// The lookup that an earlier reply answers.
pub fn cached_lookup(provider_kind: &str, cached: CachedProviderResponse) -> (r: ProviderLookupResult)
    ensures
        lookup_is(
            r,
            provider_kind@,
            cached.status@,
            true,
            opt_text(cached.reason),
            json::opt_value(cached.response),
        ),
{
    let status = cached.status;
    lookup_result(provider_kind, status.as_str(), true, cached.reason, cached.response)
}

/// The answer that an earlier reply gives, unless a fresh one is asked for.
pub fn answered_from_cache(
    force_refresh: bool,
    provider_kind: &str,
    cached: Option<CachedProviderResponse>,
) -> (r: Option<ProviderLookupResult>)
    ensures
        r is Some <==> !force_refresh && cached is Some,
        r is Some ==> lookup_is(
            r->0,
            provider_kind@,
            cached->0.status@,
            true,
            opt_text(cached->0.reason),
            json::opt_value(cached->0.response),
        ),
{
    if force_refresh {
        return None;
    }
    match cached {
        Some(c) => Some(cached_lookup(provider_kind, c)),
        None => None,
    }
}

/// A number, or the word for a film.
pub open spec fn number_or_movie(n: Option<i32>) -> Seq<char> {
    match n {
        Some(n) => text::decimal_int(n as int),
        None => "movie"@,
    }
}

fn number_or_movie_text(n: Option<i32>) -> (r: String)
    ensures
        r@ == number_or_movie(n),
{
    match n {
        Some(n) => text::i64_text(n as i64),
        None => "movie".to_owned(),
    }
}

/// Under what a reply of TheIntroDB is kept.
pub open spec fn theintrodb_key(imdb_id: Seq<char>, season: Option<i32>, episode: Option<i32>) -> Seq<
    char,
> {
    "imdb:"@ + imdb_id + ":season:"@ + number_or_movie(season) + ":episode:"@ + number_or_movie(
        episode,
    )
}

/// What TheIntroDB is asked.
pub open spec fn theintrodb_url_of(
    base_url: Seq<char>,
    imdb_id: Seq<char>,
    season: Option<i32>,
    episode: Option<i32>,
) -> Seq<char> {
    let season_part: Seq<char> = match season {
        Some(n) => "&season="@ + text::decimal_int(n as int),
        None => Seq::empty(),
    };
    let episode_part: Seq<char> = match episode {
        Some(n) => "&episode="@ + text::decimal_int(n as int),
        None => Seq::empty(),
    };
    text::trim_end_char_seq(base_url, '/') + "/segments?imdb_id="@ + outside::percent_encoded(
        encode_utf8(imdb_id),
    ) + season_part + episode_part
}

/// Under what a reply of TheIntroDB is kept.
pub fn theintrodb_cache_key(imdb_id: &str, season: Option<i32>, episode: Option<i32>) -> (r: String)
    ensures
        r@ == theintrodb_key(imdb_id@, season, episode),
{
    let season_text = number_or_movie_text(season);
    let episode_text = number_or_movie_text(episode);
    let mut key = text::join3("imdb:", imdb_id, ":season:");
    key.append(season_text.as_str());
    key.append(":episode:");
    key.append(episode_text.as_str());
    key
}

/// What TheIntroDB is asked.
pub fn theintrodb_url(base_url: &str, imdb_id: &str, season: Option<i32>, episode: Option<i32>) -> (r:
    String)
    ensures
        r@ == theintrodb_url_of(base_url@, imdb_id@, season, episode),
{
    let mut url = text::trim_end_char(base_url, '/');
    let id = outside::url_encode(imdb_id);
    url.append("/segments?imdb_id=");
    url.append(id.as_str());
    if let Some(n) = season {
        let t = text::i64_text(n as i64);
        let part = text::join2("&season=", t.as_str());
        url.append(part.as_str());
    }
    if let Some(n) = episode {
        let t = text::i64_text(n as i64);
        let part = text::join2("&episode=", t.as_str());
        url.append(part.as_str());
    }
    proof {
        assert(url@ =~= theintrodb_url_of(base_url@, imdb_id@, season, episode));
    }
    url
}

/// How a lookup begins.
#[derive(Debug)]
pub enum LookupPlan {
    /// The provider is not asked.
    Skip(ProviderLookupResult),
    /// The reply may be kept under this key; else the request is made.
    Look(String),
}

/// Begins a lookup at TheIntroDB, which goes by the IMDb identifier.
pub fn plan_theintrodb_lookup(context: &ProviderMediaContext) -> (r: LookupPlan)
    ensures
        match context@.imdb_id {
            Some(id) => r matches LookupPlan::Look(key) && key@ == theintrodb_key(
                id,
                context.season_number,
                context.episode_number,
            ),
            None => r matches LookupPlan::Skip(s) && lookup_is(
                s,
                consts::PROVIDER_THEINTRODB@,
                "skipped"@,
                false,
                Some("missing_imdb_id"@),
                None,
            ),
        },
{
    match &context.imdb_id {
        Some(id) => LookupPlan::Look(
            theintrodb_cache_key(id.as_str(), context.season_number, context.episode_number),
        ),
        None => LookupPlan::Skip(provider_skipped(consts::PROVIDER_THEINTRODB, "missing_imdb_id")),
    }
}

/// The request to TheIntroDB of a film or episode with an IMDb identifier.
pub fn theintrodb_request(context: &ProviderMediaContext, provider_settings: Option<&JsonValue>) -> (r:
    Result<Option<String>, SegmentError>)
    ensures
        match (
            context@.imdb_id,
            settings::base_url_of(
                json::opt_json(provider_settings),
                consts::DEFAULT_THEINTRODB_BASE_URL@,
            ),
        ) {
            (None, _) => r matches Ok(None),
            (Some(_), Err(m)) => r matches Err(e) && e.message@ == m,
            (Some(id), Ok(base)) => r matches Ok(Some(url)) && url@ == theintrodb_url_of(
                base,
                id,
                context.season_number,
                context.episode_number,
            ),
        },
{
    match &context.imdb_id {
        Some(id) => match provider_base_url(provider_settings, consts::DEFAULT_THEINTRODB_BASE_URL) {
            Ok(base) => Ok(
                Some(
                    theintrodb_url(
                        base.as_str(),
                        id.as_str(),
                        context.season_number,
                        context.episode_number,
                    ),
                ),
            ),
            Err(e) => Err(e),
        },
        None => Ok(None),
    }
}

/// The number of an anime episode: counted over all seasons where that is known.
pub open spec fn anime_episode(c: MediaContext) -> Option<i32> {
    if c.absolute_episode_number is Some {
        c.absolute_episode_number
    } else {
        c.episode_number
    }
}

/// The length of an episode in a request; nothing where it is not known.
pub open spec fn anime_length(c: MediaContext) -> int {
    match c.duration {
        Some(d) => if d > 0 {
            d as int
        } else {
            0
        },
        None => 0,
    }
}

/// Under what a reply of AniSkip is kept.
pub open spec fn aniskip_key(mal_id: Seq<char>, episode: i32, length: int) -> Seq<char> {
    "mal:"@ + mal_id + ":episode:"@ + text::decimal_int(episode as int) + ":duration:"@
        + quantity::millis_text(length)
}

/// What AniSkip is asked under a path.
pub open spec fn aniskip_url_of(
    base_url: Seq<char>,
    path: Seq<char>,
    mal_id: Seq<char>,
    episode: i32,
    length: int,
) -> Seq<char> {
    text::trim_end_char_seq(base_url, '/') + path + outside::percent_encoded(encode_utf8(mal_id))
        + "/"@ + text::decimal_int(episode as int)
        + "?types[]=op&types[]=ed&episodeLength="@ + quantity::millis_text(length)
}

/// Under what a reply of AniSkip is kept.
pub fn aniskip_cache_key(mal_id: &str, episode: i32, length: i64) -> (r: String)
    ensures
        r@ == aniskip_key(mal_id@, episode, length as int),
{
    let episode_text = text::i64_text(episode as i64);
    let length_text = millis_string(length);
    let mut key = text::join3("mal:", mal_id, ":episode:");
    key.append(episode_text.as_str());
    key.append(":duration:");
    key.append(length_text.as_str());
    key
}

/// What AniSkip is asked under a path.
pub fn aniskip_url(base_url: &str, path: &str, mal_id: &str, episode: i32, length: i64) -> (r:
    String)
    ensures
        r@ == aniskip_url_of(base_url@, path@, mal_id@, episode, length as int),
{
    let id = outside::url_encode(mal_id);
    let episode_text = text::i64_text(episode as i64);
    let length_text = millis_string(length);
    let mut url = text::trim_end_char(base_url, '/');
    url.append(path);
    url.append(id.as_str());
    url.append("/");
    url.append(episode_text.as_str());
    url.append("?types[]=op&types[]=ed&episodeLength=");
    url.append(length_text.as_str());
    url
}

fn episode_of(context: &ProviderMediaContext) -> (r: Option<i32>)
    ensures
        r == anime_episode(context@),
{
    match context.absolute_episode_number {
        Some(n) => Some(n),
        None => context.episode_number,
    }
}

fn length_of(context: &ProviderMediaContext) -> (r: i64)
    ensures
        r == anime_length(context@),
{
    match context.duration {
        Some(d) => if d > 0 {
            d
        } else {
            0
        },
        None => 0,
    }
}

/// Begins a lookup at AniSkip, which goes by the MyAnimeList identifier and the
/// number of the episode.
pub fn plan_aniskip_lookup(context: &ProviderMediaContext) -> (r: Result<LookupPlan, SegmentError>)
    ensures
        match (context@.mal_id, anime_episode(context@)) {
            (None, _) => r matches Ok(LookupPlan::Skip(s)) && lookup_is(
                s,
                consts::PROVIDER_ANISKIP@,
                "skipped"@,
                false,
                Some("missing_mal_id"@),
                None,
            ),
            (Some(_), None) => r matches Err(e) && e.message@ == "missing anime episode number"@,
            (Some(id), Some(n)) => r matches Ok(LookupPlan::Look(key)) && key@ == aniskip_key(
                id,
                n,
                anime_length(context@),
            ),
        },
{
    match &context.mal_id {
        Some(id) => match episode_of(context) {
            Some(n) => Ok(LookupPlan::Look(aniskip_cache_key(id.as_str(), n, length_of(context)))),
            None => Err(refuse("missing anime episode number")),
        },
        None => Ok(LookupPlan::Skip(provider_skipped(consts::PROVIDER_ANISKIP, "missing_mal_id"))),
    }
}

/// The addresses of an episode at AniSkip: the first one, and the older one that
/// is asked where nothing is found.
pub fn aniskip_requests(context: &ProviderMediaContext, provider_settings: Option<&JsonValue>) -> (r:
    Result<Option<(String, String)>, SegmentError>)
    ensures
        match (
            context@.mal_id,
            anime_episode(context@),
            settings::base_url_of(
                json::opt_json(provider_settings),
                consts::DEFAULT_ANISKIP_BASE_URL@,
            ),
        ) {
            (None, _, _) => r matches Ok(None),
            (Some(_), None, _) => r matches Err(e) && e.message@ == "missing anime episode number"@,
            (Some(_), Some(_), Err(m)) => r matches Err(e) && e.message@ == m,
            (Some(id), Some(n), Ok(base)) => r matches Ok(Some(urls)) && urls.0@ == aniskip_url_of(
                base,
                "/v1/skip-times/"@,
                id,
                n,
                anime_length(context@),
            ) && urls.1@ == aniskip_url_of(
                base,
                "/skip-times/"@,
                id,
                n,
                anime_length(context@),
            ),
        },
{
    let id = match &context.mal_id {
        Some(id) => id,
        None => {
            return Ok(None);
        },
    };
    let n: i32 = match episode_of(context) {
        Some(n) => n,
        None => {
            return Err(refuse("missing anime episode number"));
        },
    };
    match provider_base_url(provider_settings, consts::DEFAULT_ANISKIP_BASE_URL) {
        Ok(base) => {
            let length: i64 = length_of(context);
            let first = aniskip_url(base.as_str(), "/v1/skip-times/", id.as_str(), n, length);
            let second = aniskip_url(base.as_str(), "/skip-times/", id.as_str(), n, length);
            Ok(Some((first, second)))
        },
        Err(e) => Err(e),
    }
}

/// Whether the older address of AniSkip is asked: nothing was found, and that
/// was not known from an earlier reply.
pub fn aniskip_asks_again(result: &ProviderLookupResult) -> (r: bool)
    ensures
        r == (result.outcome.status@ == "not_found"@ && !result.outcome.cache_hit),
{
    text::str_eq(result.outcome.status.as_str(), "not_found") && !result.outcome.cache_hit
}

/// How a provider replied.
#[derive(Debug)]
pub enum ProviderReply {
    /// The request could not be made, with the message of the error.
    Failed(String),
    /// The provider replied with a status that is no success.
    Refused(u16),
    /// The provider replied with a response.
    Response(JsonValue),
}

/// Whether a status of a reply is a success.
pub fn is_success_status(status: u16) -> (r: bool)
    ensures
        r == (200 <= status < 300),
{
    200 <= status && status < 300
}

/// What is kept of a reply, and for how long.
#[derive(Debug)]
pub struct CacheWrite {
    pub status: &'static str,
    pub response: Option<JsonValue>,
    pub error: Option<JsonValue>,
    pub ttl_seconds: i64,
}

/// The provider of an extension, as an error names it.
#[derive(Debug, Clone)]
pub struct ProviderOrigin {
    pub provider_id: String,
    pub extension_id: String,
}

/// The second until which something is kept from another on; a time below zero
/// counts as none.
pub open spec fn kept_until(now: i64, ttl_seconds: i64) -> int {
    now + if ttl_seconds < 0 {
        0
    } else {
        ttl_seconds as int
    }
}

impl CacheWrite {
    /// When what is kept from the second `now` on expires, as it is stored.
    pub fn expires_at(&self, now: i64) -> (r: String)
        requires
            outside::in_calendar(kept_until(now, self.ttl_seconds)),
        ensures
            r@ == outside::utc_text(kept_until(now, self.ttl_seconds) as i64),
            jobs::timestamp_instant(r@) == Some((kept_until(now, self.ttl_seconds) as i64, 0u32)),
    {
        if self.ttl_seconds < 0 {
            jobs::timestamp_after(now, 0)
        } else {
            jobs::timestamp_after(now, self.ttl_seconds)
        }
    }
}

/// How long a reply is kept.
pub open spec fn kept_for(provider_settings: Option<Json>) -> int {
    settings::whole_setting(
        provider_settings,
        "cache_ttl_seconds"@,
        "cacheTtlSeconds"@,
        0,
        2_592_000,
        consts::DEFAULT_PROVIDER_CACHE_TTL_SECONDS as int,
    )
}

/// How long an error is kept: as a reply, but a quarter of an hour at most.
pub open spec fn error_kept_for(provider_settings: Option<Json>) -> int {
    if kept_for(provider_settings) < 900 {
        kept_for(provider_settings)
    } else {
        900
    }
}

/// What is kept of an error. The address is kept without its query.
pub open spec fn error_json(
    name: Seq<char>,
    detail: Json,
    url: Seq<char>,
    origin: Option<ProviderOrigin>,
) -> Json {
    let shown = ("url"@, Json::Text(normalize::before_query(url)));
    Json::Object(
        match origin {
            Some(o) => if name == "error"@ {
                seq![
                    ("error"@, detail),
                    ("extension_id"@, Json::Text(o.extension_id@)),
                    ("provider_id"@, Json::Text(o.provider_id@)),
                    shown,
                ]
            } else {
                seq![
                    ("extension_id"@, Json::Text(o.extension_id@)),
                    ("provider_id"@, Json::Text(o.provider_id@)),
                    (name, detail),
                    shown,
                ]
            },
            None => seq![(name, detail), shown],
        },
    )
}

fn error_value(name: &str, detail: JsonValue, url: &str, origin: Option<&ProviderOrigin>) -> (v:
    JsonValue)
    ensures
        v@ == error_json(
            name@,
            detail@,
            url@,
            match origin {
                Some(o) => Some(*o),
                None => None,
            },
        ),
{
    let shown = redact_provider_url(url);
    let mut o: Vec<(String, JsonValue)> = Vec::new();
    match origin {
        Some(origin) => {
            if text::str_eq(name, "error") {
                o.push((name.to_owned(), detail));
                o.push(("extension_id".to_owned(), text_value(origin.extension_id.as_str())));
                o.push(("provider_id".to_owned(), text_value(origin.provider_id.as_str())));
            } else {
                o.push(("extension_id".to_owned(), text_value(origin.extension_id.as_str())));
                o.push(("provider_id".to_owned(), text_value(origin.provider_id.as_str())));
                o.push((name.to_owned(), detail));
            }
        },
        None => {
            o.push((name.to_owned(), detail));
        },
    }
    o.push(("url".to_owned(), JsonValue::Text(shown)));
    proof {
        json::lemma_view_object(o);
        assert(json::members_of(o@) =~= error_json(
            name@,
            detail@,
            url@,
            match origin {
                Some(o) => Some(*o),
                None => None,
            },
        )->Object_0);
    }
    JsonValue::Object(o)
}

/// What a reply means for the lookup, and what is kept of it.
pub open spec fn reply_concludes(
    r: (ProviderLookupResult, CacheWrite),
    provider_kind: Seq<char>,
    url: Seq<char>,
    origin: Option<ProviderOrigin>,
    provider_settings: Option<Json>,
    reply: ProviderReply,
) -> bool {
    match reply {
        ProviderReply::Failed(message) => {
            &&& lookup_is(
                r.0,
                provider_kind,
                "error"@,
                false,
                Some("provider_request_failed"@),
                None,
            )
            &&& r.1.status@ == "error"@
            &&& r.1.response is None
            &&& json::opt_value(r.1.error) == Some(
                error_json("error"@, Json::Text(message@), url, origin),
            )
            &&& r.1.ttl_seconds == error_kept_for(provider_settings)
        },
        ProviderReply::Refused(status) => if status == 404 {
            &&& lookup_is(
                r.0,
                provider_kind,
                "not_found"@,
                false,
                Some("provider_no_segments"@),
                None,
            )
            &&& r.1.status@ == "not_found"@
            &&& json::opt_value(r.1.response) == Some(responses::nothing_found())
            &&& r.1.error is None
            &&& r.1.ttl_seconds == kept_for(provider_settings)
        } else {
            &&& lookup_is(
                r.0,
                provider_kind,
                "error"@,
                false,
                Some("provider_http_"@ + text::decimal(status as nat)),
                None,
            )
            &&& r.1.status@ == "error"@
            &&& r.1.response is None
            &&& json::opt_value(r.1.error) == Some(
                error_json(
                    "status"@,
                    Json::Number(JsonNumber::Unsigned(status as u64)),
                    url,
                    origin,
                ),
            )
            &&& r.1.ttl_seconds == error_kept_for(provider_settings)
        },
        ProviderReply::Response(payload) => {
            &&& lookup_is(r.0, provider_kind, "ok"@, false, None, Some(payload@))
            &&& r.1.status@ == "ok"@
            &&& json::opt_value(r.1.response) == Some(payload@)
            &&& r.1.error is None
            &&& r.1.ttl_seconds == kept_for(provider_settings)
        },
    }
}

/// What a reply means for the lookup, and what is kept of it.
pub fn conclude_provider_reply(
    provider_kind: &str,
    url: &str,
    origin: Option<&ProviderOrigin>,
    provider_settings: Option<&JsonValue>,
    reply: ProviderReply,
) -> (r: (ProviderLookupResult, CacheWrite))
    ensures
        reply_concludes(
            r,
            provider_kind@,
            url@,
            match origin {
                Some(o) => Some(*o),
                None => None,
            },
            json::opt_json(provider_settings),
            reply,
        ),
{
    let ttl: i64 = provider_cache_ttl_seconds(provider_settings);
    let error_ttl: i64 = if ttl < 900 {
        ttl
    } else {
        900
    };
    match reply {
        ProviderReply::Failed(message) => {
            let error = error_value("error", JsonValue::Text(message), url, origin);
            let reason = Some("provider_request_failed".to_owned());
            (
                lookup_result(provider_kind, "error", false, reason, None),
                CacheWrite {
                    status: "error",
                    response: None,
                    error: Some(error),
                    ttl_seconds: error_ttl,
                },
            )
        },
        ProviderReply::Refused(status) => {
            if status == 404 {
                let mut o: Vec<(String, JsonValue)> = Vec::new();
                o.push(("found".to_owned(), JsonValue::Bool(false)));
                proof {
                    json::lemma_view_object(o);
                    assert(json::members_of(o@) =~= seq![("found"@, Json::Bool(false))]);
                }
                let reason = Some("provider_no_segments".to_owned());
                (
                    lookup_result(provider_kind, "not_found", false, reason, None),
                    CacheWrite {
                        status: "not_found",
                        response: Some(JsonValue::Object(o)),
                        error: None,
                        ttl_seconds: ttl,
                    },
                )
            } else {
                let detail = JsonValue::Number(JsonNumber::Unsigned(status as u64));
                let error = error_value("status", detail, url, origin);
                let code = text::u64_text(status as u64);
                let reason = Some(text::join2("provider_http_", code.as_str()));
                (
                    lookup_result(provider_kind, "error", false, reason, None),
                    CacheWrite {
                        status: "error",
                        response: None,
                        error: Some(error),
                        ttl_seconds: error_ttl,
                    },
                )
            }
        },
        ProviderReply::Response(payload) => {
            let kept = payload.dup();
            (
                lookup_result(provider_kind, "ok", false, None, Some(payload)),
                CacheWrite { status: "ok", response: Some(kept), error: None, ttl_seconds: ttl },
            )
        },
    }
}

/// Refuses a response of a provider that is too long.
pub fn check_response_length(length: u64) -> (r: Result<(), SegmentError>)
    ensures
        r is Ok <==> length <= consts::MEDIA_SEGMENT_PROVIDER_RESPONSE_MAX_BYTES,
        r matches Err(e) ==> e.message@
            == "media segment provider response exceeds 262144 bytes"@,
{
    if length > consts::MEDIA_SEGMENT_PROVIDER_RESPONSE_MAX_BYTES {
        Err(refuse("media segment provider response exceeds 262144 bytes"))
    } else {
        Ok(())
    }
}

/// Where an extension is asked for segments.
pub open spec fn lookup_url_of(base_url: Seq<char>) -> Result<Seq<char>, Seq<char>> {
    match outside::url_path_text(base_url) {
        None => Err("parsing media segment provider base URL"@),
        Some(path) => match outside::url_with_path_text(
            base_url,
            text::trim_end_char_seq(path, '/') + "/"@,
        ) {
            None => Err("parsing media segment provider base URL"@),
            Some(base) => match outside::url_joined_text(
                base,
                consts::MEDIA_SEGMENT_PROVIDER_LOOKUP_PATH@,
            ) {
                None => Err("building media segment provider lookup URL"@),
                Some(url) => Ok(url),
            },
        },
    }
}

/// Where an extension is asked for segments.
pub fn media_segment_provider_lookup_url(base_url: &str) -> (r: Result<String, SegmentError>)
    ensures
        error::text_agrees(r, lookup_url_of(base_url@)),
{
    let path = match outside::url_path(base_url) {
        Some(p) => p,
        None => {
            return Err(refuse("parsing media segment provider base URL"));
        },
    };
    let directory = directory_path(path.as_str());
    let base = match outside::url_with_path(base_url, directory.as_str()) {
        Some(b) => b,
        None => {
            return Err(refuse("parsing media segment provider base URL"));
        },
    };
    match outside::url_join(base.as_str(), consts::MEDIA_SEGMENT_PROVIDER_LOOKUP_PATH) {
        Some(url) => Ok(url),
        None => Err(refuse("building media segment provider lookup URL")),
    }
}

/// A path with one slash at its end.
pub fn directory_path(path: &str) -> (r: String)
    ensures
        r@ == text::trim_end_char_seq(path@, '/') + "/"@,
{
    let mut directory = text::trim_end_char(path, '/');
    directory.append("/");
    directory
}

/// How often a provider was asked since a time.
#[derive(Debug, Clone)]
pub struct RateWindow {
    pub window_started_at: String,
    pub requests_in_window: i64,
}

/// The same, as a mathematical value.
#[verifier::ext_equal]
pub struct Window {
    pub started: Seq<char>,
    pub requests: i64,
}

impl View for RateWindow {
    type V = Window;

    open spec fn view(&self) -> Window {
        Window { started: self.window_started_at@, requests: self.requests_in_window }
    }
}

/// The window, where there is one.
pub open spec fn opt_window(w: Option<RateWindow>) -> Option<Window> {
    match w {
        Some(w) => Some(w@),
        None => None,
    }
}

/// Whether a window still counts: it did not start before the cutoff.
pub open spec fn window_counts(w: Option<Window>, cutoff: Seq<char>) -> bool {
    w is Some && !text::lex_lt(w->0.started, cutoff)
}

/// Whether a provider may be asked.
pub open spec fn may_ask(w: Option<Window>, cutoff: Seq<char>, limit: int) -> bool {
    !window_counts(w, cutoff) || w->0.requests < limit
}

/// The window after a provider was to be asked.
pub open spec fn window_after(w: Option<Window>, now: Seq<char>, cutoff: Seq<char>, limit: int) -> Option<
    Window,
> {
    if !window_counts(w, cutoff) {
        Some(Window { started: now, requests: 1 })
    } else if w->0.requests < limit {
        Some(Window { started: w->0.started, requests: (w->0.requests + 1) as i64 })
    } else {
        w
    }
}

/// How often a provider may be asked within a window.
pub open spec fn rate_limit_of(provider_settings: Option<Json>) -> int {
    settings::whole_setting(
        provider_settings,
        "rate_limit_per_minute"@,
        "rateLimitPerMinute"@,
        1,
        600,
        consts::DEFAULT_PROVIDER_RATE_LIMIT_PER_MINUTE as int,
    )
}

/// Since when a window counts at a second.
pub open spec fn window_cutoff(now: i64) -> Seq<char> {
    outside::utc_text((now - consts::PROVIDER_RATE_LIMIT_WINDOW_SECONDS) as i64)
}

/// A window as its second and its requests.
pub struct Minute {
    pub started: i64,
    pub requests: i64,
}

/// Whether a stored window is that of a second in the years 0 to 9999.
pub open spec fn stands_for(stored: Option<Window>, w: Option<Minute>) -> bool {
    match (stored, w) {
        (Some(t), Some(m)) => outside::in_common_years(m.started as int) && t.started
            == outside::utc_text(m.started) && t.requests == m.requests,
        (None, None) => true,
        _ => false,
    }
}

/// Whether a window still counts at a second: it started no longer ago than a
/// window lasts.
pub open spec fn still_counts(w: Option<Minute>, now: i64) -> bool {
    w is Some && now - w->0.started <= consts::PROVIDER_RATE_LIMIT_WINDOW_SECONDS
}

/// Whether a provider may be asked at a second.
pub open spec fn granted(w: Option<Minute>, now: i64, limit: int) -> bool {
    !still_counts(w, now) || w->0.requests < limit
}

/// The window after a provider was to be asked at a second.
pub open spec fn minute_after(w: Option<Minute>, now: i64, limit: int) -> Option<Minute> {
    if !still_counts(w, now) {
        Some(Minute { started: now, requests: 1 })
    } else if w->0.requests < limit {
        Some(Minute { started: w->0.started, requests: (w->0.requests + 1) as i64 })
    } else {
        w
    }
}

/// The window after the first `n` of some requests.
pub open spec fn minute_of(w: Option<Minute>, times: Seq<i64>, n: nat, limit: int) -> Option<Minute>
    decreases n,
{
    if n == 0 {
        w
    } else {
        minute_after(minute_of(w, times, (n - 1) as nat, limit), times[n - 1], limit)
    }
}

/// Whether a provider may be asked at the second `now`, and the window after that.
pub fn acquire_provider_rate_limit(
    window: Option<RateWindow>,
    provider_settings: Option<&JsonValue>,
    now: i64,
) -> (r: (bool, Option<RateWindow>))
    requires
        outside::in_calendar(now as int),
        outside::in_calendar(now - consts::PROVIDER_RATE_LIMIT_WINDOW_SECONDS),
    ensures
        r.0 == may_ask(
            opt_window(window),
            window_cutoff(now),
            rate_limit_of(json::opt_json(provider_settings)),
        ),
        opt_window(r.1) == window_after(
            opt_window(window),
            outside::utc_text(now),
            window_cutoff(now),
            rate_limit_of(json::opt_json(provider_settings)),
        ),
        outside::in_common_years(now as int) && outside::in_common_years(
            now - consts::PROVIDER_RATE_LIMIT_WINDOW_SECONDS,
        ) ==> forall|w: Option<Minute>| #[trigger]
            stands_for(opt_window(window), w) ==> {
                let limit = rate_limit_of(json::opt_json(provider_settings));
                &&& r.0 == granted(w, now, limit)
                &&& stands_for(opt_window(r.1), minute_after(w, now, limit))
            },
{
    let started = jobs::timestamp_after(now, 0);
    let cutoff = jobs::timestamp_after(now, -consts::PROVIDER_RATE_LIMIT_WINDOW_SECONDS);
    let limit: i64 = provider_rate_limit_per_minute(provider_settings);
    match window {
        Some(w) => {
            if !text::str_lt(w.window_started_at.as_str(), cutoff.as_str()) {
                if w.requests_in_window >= limit {
                    (false, Some(w))
                } else {
                    let requests: i64 = w.requests_in_window + 1;
                    (
                        true,
                        Some(
                            RateWindow {
                                window_started_at: w.window_started_at,
                                requests_in_window: requests,
                            },
                        ),
                    )
                }
            } else {
                (true, Some(RateWindow { window_started_at: started, requests_in_window: 1 }))
            }
        },
        None => (true, Some(RateWindow { window_started_at: started, requests_in_window: 1 })),
    }
}

/// A window never counts more requests than the limit, and every request that
/// is let through is counted.
pub proof fn rate_limit_is_kept(
    w: Option<Window>,
    now: Seq<char>,
    cutoff: Seq<char>,
    provider_settings: Option<Json>,
)
    requires
        w is Some ==> w->0.requests <= rate_limit_of(provider_settings),
    ensures
        ({
            let limit = rate_limit_of(provider_settings);
            let after = window_after(w, now, cutoff, limit);
            &&& after is Some && after->0.requests <= limit
            &&& window_counts(w, cutoff) ==> after->0.started == w->0.started && after->0.requests
                == w->0.requests + if may_ask(w, cutoff, limit) {
                1int
            } else {
                0
            }
            &&& !window_counts(w, cutoff) ==> after->0.started == now && after->0.requests == 1
        }),
{
}

/// How many of some requests within one window are let through.
pub open spec fn let_through(w: Option<Window>, cutoffs: Seq<Seq<char>>, limit: int) -> int
    decreases cutoffs.len(),
{
    if cutoffs.len() == 0 {
        0
    } else {
        (if may_ask(w, cutoffs[0], limit) {
            1int
        } else {
            0
        }) + let_through(
            window_after(w, Seq::empty(), cutoffs[0], limit),
            cutoffs.drop_first(),
            limit,
        )
    }
}

/// While a window counts, requests are let through until the limit is reached, and
/// none after that.
pub proof fn window_lets_through_up_to_its_limit(
    w: Window,
    cutoffs: Seq<Seq<char>>,
    limit: int,
)
    requires
        0 <= w.requests <= limit,
        limit <= 600,
        forall|i: int|
            0 <= i < cutoffs.len() ==> window_counts(Some(w), #[trigger] cutoffs[i]),
    ensures
        let_through(Some(w), cutoffs, limit) == if cutoffs.len() < limit - w.requests {
            cutoffs.len() as int
        } else {
            limit - w.requests
        },
    decreases cutoffs.len(),
{
    if cutoffs.len() > 0 {
        assert(window_counts(Some(w), cutoffs[0]));
        let next = window_after(Some(w), Seq::empty(), cutoffs[0], limit)->0;
        let rest = cutoffs.drop_first();
        assert forall|i: int| 0 <= i < rest.len() implies window_counts(
            Some(next),
            #[trigger] rest[i],
        ) by {
            assert(rest[i] == cutoffs[i + 1]);
            assert(window_counts(Some(w), cutoffs[i + 1]));
        }
        window_lets_through_up_to_its_limit(next, rest, limit);
    }
}

/// Of requests within one window, which the first of them opens, as many go through
/// as the limit says, the first ones, and none after them; the window never counts
/// more.
pub proof fn first_requests_of_a_window_go_through(
    w: Option<Minute>,
    times: Seq<i64>,
    provider_settings: Option<Json>,
    i: nat,
)
    requires
        i < times.len(),
        !still_counts(w, times[0]),
        forall|k: int|
            0 <= k < times.len() ==> #[trigger] times[k] - times[0]
                <= consts::PROVIDER_RATE_LIMIT_WINDOW_SECONDS,
    ensures
        ({
            let limit = rate_limit_of(provider_settings);
            let after = minute_of(w, times, i + 1, limit);
            &&& granted(minute_of(w, times, i, limit), times[i as int], limit) <==> i < limit
            &&& after is Some
            &&& after->0.started == times[0]
            &&& after->0.requests == if i < limit {
                (i + 1) as int
            } else {
                limit
            }
        }),
    decreases i,
{
    let limit = rate_limit_of(provider_settings);
    reveal_with_fuel(minute_of, 2);
    assert(1 <= limit <= 600);
    assert(times[i as int] - times[0] <= consts::PROVIDER_RATE_LIMIT_WINDOW_SECONDS);
    if i > 0 {
        first_requests_of_a_window_go_through(w, times, provider_settings, (i - 1) as nat);
    }
}

/// A lookup that is answered by what was kept of a reply has the status that the
/// reply was given. A response that was read is given again, and what is given in
/// place of another reply has no candidates.
pub proof fn kept_replies_are_answered_alike(
    fresh: (ProviderLookupResult, CacheWrite),
    again: ProviderLookupResult,
    provider_kind: Seq<char>,
    url: Seq<char>,
    origin: Option<ProviderOrigin>,
    provider_settings: Option<Json>,
    reply: ProviderReply,
    reason: Option<Seq<char>>,
    c: MediaContext,
)
    requires
        reply_concludes(fresh, provider_kind, url, origin, provider_settings, reply),
        lookup_is(
            again,
            provider_kind,
            fresh.1.status@,
            true,
            reason,
            json::opt_value(fresh.1.response),
        ),
    ensures
        again.outcome.status@ == fresh.0.outcome.status@,
        reply is Response ==> json::opt_value(again.response) == json::opt_value(fresh.0.response),
        !(reply is Response) ==> fresh.0.response is None && (again.response is Some
            ==> responses::response_candidates(provider_kind, c, again.response->0@).len() == 0),
{
    responses::nothing_found_has_no_candidates(provider_kind, c);
}

/// No address in what is kept of an error has a query.
pub proof fn kept_errors_show_no_query(
    name: Seq<char>,
    detail: Json,
    url: Seq<char>,
    origin: Option<ProviderOrigin>,
)
    requires
        name == "error"@ || name == "status"@,
    ensures
        json::json_get(error_json(name, detail, url, origin), "url"@) == Some(
            Json::Text(normalize::before_query(url)),
        ),
        !normalize::before_query(url).contains('?'),
{
    normalize::shown_address_has_no_query(url);
    reveal_strlit("error");
    reveal_strlit("status");
    reveal_strlit("url");
    reveal_strlit("extension_id");
    reveal_strlit("provider_id");
    assert("url"@.len() == 3 && "error"@.len() == 5 && "status"@.len() == 6
        && "extension_id"@.len() == 12 && "provider_id"@.len() == 11);
    reveal_with_fuel(json::lookup, 5);
    let members = error_json(name, detail, url, origin)->Object_0;
    let a = members.drop_first();
    let b = a.drop_first();
    let c = b.drop_first();
}

/// What a reply means. A response is handed on and kept. No page found means that
/// there are no segments, which is kept as well. Any other status and a request
/// that failed are errors, which are kept a quarter of an hour at most. No lookup
/// counts candidates yet, or says that it was answered from what was kept.
pub proof fn replies_mean_what_they_say(
    r: (ProviderLookupResult, CacheWrite),
    provider_kind: Seq<char>,
    url: Seq<char>,
    origin: Option<ProviderOrigin>,
    provider_settings: Option<Json>,
    reply: ProviderReply,
)
    requires
        reply_concludes(r, provider_kind, url, origin, provider_settings, reply),
    ensures
        r.0.outcome.provider_kind@ == provider_kind,
        r.0.outcome.enabled,
        !r.0.outcome.cache_hit,
        r.0.outcome.candidate_count == 0,
        r.0.outcome.accepted_count == 0,
        r.0.outcome.rejected_count == 0,
        r.0.outcome.status@ == r.1.status@,
        0 <= r.1.ttl_seconds <= 2_592_000,
        match reply {
            ProviderReply::Response(payload) => {
                &&& r.0.outcome.status@ == "ok"@
                &&& r.0.outcome.reason is None
                &&& r.0.response is Some && r.0.response->0@ == payload@
                &&& r.1.response is Some && r.1.response->0@ == payload@
                &&& r.1.error is None
            },
            ProviderReply::Refused(404) => {
                &&& r.0.outcome.status@ == "not_found"@
                &&& r.0.outcome.reason is Some && r.0.outcome.reason->0@ == "provider_no_segments"@
                &&& r.0.response is None
                &&& r.1.response is Some
                &&& json::json_get(r.1.response->0@, "found"@) == Some(Json::Bool(false))
                &&& r.1.error is None
            },
            ProviderReply::Refused(status) => {
                &&& r.0.outcome.status@ == "error"@
                &&& r.0.outcome.reason is Some && r.0.outcome.reason->0@ == "provider_http_"@
                    + text::decimal(status as nat)
                &&& r.0.response is None
                &&& r.1.response is None
                &&& r.1.error is Some
                &&& json::json_get(r.1.error->0@, "status"@) == Some(
                    Json::Number(JsonNumber::Unsigned(status as u64)),
                )
                &&& r.1.ttl_seconds <= 900
            },
            ProviderReply::Failed(message) => {
                &&& r.0.outcome.status@ == "error"@
                &&& r.0.outcome.reason is Some && r.0.outcome.reason->0@
                    == "provider_request_failed"@
                &&& r.0.response is None
                &&& r.1.response is None
                &&& r.1.error is Some
                &&& json::json_get(r.1.error->0@, "error"@) == Some(Json::Text(message@))
                &&& r.1.ttl_seconds <= 900
            },
        },
{
    lemma_error_names_differ();
    reveal_strlit("found");
    match reply {
        ProviderReply::Refused(404) => {
            json::lemma_lookup_at(responses::nothing_found()->Object_0, "found"@, 0);
        },
        ProviderReply::Refused(status) => {
            let detail = Json::Number(JsonNumber::Unsigned(status as u64));
            let m = error_json("status"@, detail, url, origin)->Object_0;
            json::lemma_lookup_at(
                m,
                "status"@,
                if origin is Some {
                    2
                } else {
                    0
                },
            );
        },
        ProviderReply::Failed(message) => {
            let m = error_json("error"@, Json::Text(message@), url, origin)->Object_0;
            json::lemma_lookup_at(m, "error"@, 0);
        },
        _ => {},
    }
}

proof fn lemma_error_names_differ()
    ensures
        "error"@ != "extension_id"@,
        "error"@ != "provider_id"@,
        "error"@ != "status"@,
        "error"@ != "url"@,
        "status"@ != "extension_id"@,
        "status"@ != "provider_id"@,
        "status"@ != "url"@,
{
    reveal_strlit("error");
    reveal_strlit("extension_id");
    reveal_strlit("provider_id");
    reveal_strlit("status");
    reveal_strlit("url");
    assert("error"@.len() == 5 && "extension_id"@.len() == 12 && "provider_id"@.len() == 11);
    assert("status"@.len() == 6 && "url"@.len() == 3);
}

/// How long a reply is kept: as the settings say, between nothing and thirty days,
/// else a day; an error no longer than that, and no longer than a quarter of an
/// hour.
pub proof fn replies_are_kept_as_set(provider_settings: Option<Json>, n: u64)
    ensures
        provider_settings is None ==> kept_for(provider_settings) == 86_400,
        provider_settings is Some && json::json_get(provider_settings->0, "cache_ttl_seconds"@)
            == Some(Json::Number(JsonNumber::Unsigned(n))) ==> kept_for(provider_settings)
            == if n <= 2_592_000 {
            n as int
        } else {
            86_400
        },
        error_kept_for(provider_settings) <= kept_for(provider_settings),
        error_kept_for(provider_settings) <= 900,
        kept_for(provider_settings) <= 900 ==> error_kept_for(provider_settings) == kept_for(
            provider_settings,
        ),
        kept_for(provider_settings) >= 900 ==> error_kept_for(provider_settings) == 900,
{
}

/// What is kept is kept for its time, counted from now; for a time below zero it is
/// kept no longer than now.
pub proof fn kept_times_end(now: i64, ttl_seconds: i64)
    ensures
        ttl_seconds >= 0 ==> kept_until(now, ttl_seconds) == now + ttl_seconds,
        ttl_seconds < 0 ==> kept_until(now, ttl_seconds) == now,
{
}

/// A provider may be asked unless it was asked as often as the limit says within
/// the last minute. The first request after that opens a new window; each that is
/// let through counts, and none that is not.
pub proof fn a_minute_holds_the_limit(w: Option<Minute>, now: i64, limit: int)
    requires
        0 < limit <= 600,
        w is Some ==> 0 <= w->0.requests < i64::MAX,
    ensures
        w is None ==> granted(w, now, limit),
        w is Some && now - w->0.started > 60 ==> granted(w, now, limit),
        w is Some && now - w->0.started <= 60 ==> (granted(w, now, limit) <==> w->0.requests
            < limit),
        w is None || now - w->0.started > 60 ==> minute_after(w, now, limit) == Some(
            Minute { started: now, requests: 1 },
        ),
        w is Some && now - w->0.started <= 60 && w->0.requests < limit ==> minute_after(
            w,
            now,
            limit,
        ) == Some(Minute { started: w->0.started, requests: (w->0.requests + 1) as i64 }),
        w is Some && now - w->0.started <= 60 && w->0.requests >= limit ==> minute_after(
            w,
            now,
            limit,
        ) == w,
{
}

/// How often a provider may be asked in a minute: as the settings say, from once to
/// six hundred times, else thirty times.
pub proof fn limits_are_as_set(provider_settings: Option<Json>, n: u64)
    ensures
        provider_settings is None ==> rate_limit_of(provider_settings) == 30,
        1 <= rate_limit_of(provider_settings) <= 600,
        provider_settings is Some && json::json_get(provider_settings->0, "rate_limit_per_minute"@)
            == Some(Json::Number(JsonNumber::Unsigned(n))) ==> rate_limit_of(provider_settings)
            == if 1 <= n <= 600 {
            n as int
        } else {
            30
        },
{
}

/// Replies of TheIntroDB on different films or episodes are kept under different
/// keys.
pub proof fn theintrodb_keys_differ(
    a: Seq<char>,
    b: Seq<char>,
    season: Option<i32>,
    episode: Option<i32>,
    other: Option<i32>,
)
    ensures
        a != b ==> theintrodb_key(a, season, episode) != theintrodb_key(b, season, episode),
        other != season ==> theintrodb_key(a, season, episode) != theintrodb_key(
            a,
            other,
            episode,
        ),
        other != episode ==> theintrodb_key(a, season, episode) != theintrodb_key(
            a,
            season,
            other,
        ),
{
    let s = number_or_movie(season);
    let e = number_or_movie(episode);
    let o = number_or_movie(other);
    if a != b {
        text::different_tails_stay_different("imdb:"@, a, b);
        let x0 = "imdb:"@ + a;
        let y0 = "imdb:"@ + b;
        text::different_heads_stay_different(x0, y0, ":season:"@);
        text::different_heads_stay_different(x0 + ":season:"@, y0 + ":season:"@, s);
        let x1 = x0 + ":season:"@ + s;
        let y1 = y0 + ":season:"@ + s;
        text::different_heads_stay_different(x1, y1, ":episode:"@);
        text::different_heads_stay_different(x1 + ":episode:"@, y1 + ":episode:"@, e);
    }
    let h = "imdb:"@ + a + ":season:"@;
    if other != season {
        lemma_numbers_differ(other, season);
        text::different_tails_stay_different(h, s, o);
        text::different_heads_stay_different(h + s, h + o, ":episode:"@);
        text::different_heads_stay_different(h + s + ":episode:"@, h + o + ":episode:"@, e);
    }
    if other != episode {
        lemma_numbers_differ(other, episode);
        text::different_tails_stay_different(h + s + ":episode:"@, e, o);
    }
}

proof fn lemma_numbers_differ(a: Option<i32>, b: Option<i32>)
    requires
        a != b,
    ensures
        number_or_movie(a) != number_or_movie(b),
{
    reveal_strlit("movie");
    assert("movie"@[0] == 'm');
    if a is Some && b is Some {
        text::numbers_differ_in_text(a->0 as int, b->0 as int);
    } else {
        let n = if a is Some {
            a->0 as int
        } else {
            b->0 as int
        };
        let m = if n < 0 {
            -n
        } else {
            n
        };
        text::digits_give_the_number_back(m as nat);
        assert(text::decimal_int(n)[0] == '-' || '0' <= text::decimal_int(n)[0] <= '9');
    }
}

/// Replies of AniSkip on different series, episodes or lengths are kept under
/// different keys.
pub proof fn aniskip_keys_differ(
    a: Seq<char>,
    b: Seq<char>,
    episode: i32,
    other: i32,
    length: int,
    longer: int,
)
    ensures
        a != b ==> aniskip_key(a, episode, length) != aniskip_key(b, episode, length),
        other != episode ==> aniskip_key(a, episode, length) != aniskip_key(a, other, length),
        quantity::millis_text(length) != quantity::millis_text(longer) ==> aniskip_key(
            a,
            episode,
            length,
        ) != aniskip_key(a, episode, longer),
{
    let e = text::decimal_int(episode as int);
    let o = text::decimal_int(other as int);
    let d = quantity::millis_text(length);
    if a != b {
        text::different_tails_stay_different("mal:"@, a, b);
        let x0 = "mal:"@ + a;
        let y0 = "mal:"@ + b;
        text::different_heads_stay_different(x0, y0, ":episode:"@);
        text::different_heads_stay_different(x0 + ":episode:"@, y0 + ":episode:"@, e);
        let x1 = x0 + ":episode:"@ + e;
        let y1 = y0 + ":episode:"@ + e;
        text::different_heads_stay_different(x1, y1, ":duration:"@);
        text::different_heads_stay_different(x1 + ":duration:"@, y1 + ":duration:"@, d);
    }
    let h = "mal:"@ + a + ":episode:"@;
    if other != episode {
        text::numbers_differ_in_text(other as int, episode as int);
        text::different_tails_stay_different(h, e, o);
        text::different_heads_stay_different(h + e, h + o, ":duration:"@);
        text::different_heads_stay_different(h + e + ":duration:"@, h + o + ":duration:"@, d);
    }
    if d != quantity::millis_text(longer) {
        text::different_tails_stay_different(
            h + e + ":duration:"@,
            d,
            quantity::millis_text(longer),
        );
    }
}

/// What TheIntroDB is asked: the film by its identifier; a season and an episode
/// are each put behind it.
pub proof fn theintrodb_is_asked_by_identifier(
    base_url: Seq<char>,
    imdb_id: Seq<char>,
    season: i32,
    episode: i32,
)
    ensures
        base_url.len() > 0 && base_url.last() != '/' ==> theintrodb_url_of(
            base_url,
            imdb_id,
            None,
            None,
        ) == base_url + "/segments?imdb_id="@ + outside::percent_encoded(encode_utf8(imdb_id)),
        theintrodb_url_of(base_url + seq!['/'], imdb_id, None, None) == theintrodb_url_of(
            base_url,
            imdb_id,
            None,
            None,
        ),
        theintrodb_url_of(base_url, imdb_id, Some(season), None) == theintrodb_url_of(
            base_url,
            imdb_id,
            None,
            None,
        ) + ("&season="@ + text::decimal_int(season as int)),
        theintrodb_url_of(base_url, imdb_id, Some(season), Some(episode)) == theintrodb_url_of(
            base_url,
            imdb_id,
            Some(season),
            None,
        ) + ("&episode="@ + text::decimal_int(episode as int)),
        theintrodb_url_of(base_url, imdb_id, None, Some(episode)) == theintrodb_url_of(
            base_url,
            imdb_id,
            None,
            None,
        ) + ("&episode="@ + text::decimal_int(episode as int)),
{
    let none = Seq::<char>::empty();
    let s = "&season="@ + text::decimal_int(season as int);
    let e = "&episode="@ + text::decimal_int(episode as int);
    let head = text::trim_end_char_seq(base_url, '/') + "/segments?imdb_id="@
        + outside::percent_encoded(encode_utf8(imdb_id));
    assert(head + none + none =~= head);
    assert(head + s + none =~= head + s);
    assert(head + none + e =~= head + e);
    assert((base_url + seq!['/']).drop_last() =~= base_url);
    assert((base_url + seq!['/']).last() == '/');
}

/// What AniSkip is asked: the series and the episode, for openings and endings, with
/// the length of the episode in seconds.
pub proof fn aniskip_is_asked_by_episode(
    base_url: Seq<char>,
    path: Seq<char>,
    mal_id: Seq<char>,
    episode: i32,
    length: int,
)
    requires
        base_url.len() > 0,
        base_url.last() != '/',
    ensures
        aniskip_url_of(base_url, path, mal_id, episode, length) == base_url + path
            + outside::percent_encoded(encode_utf8(mal_id)) + "/"@ + text::decimal_int(
            episode as int,
        ) + "?types[]=op&types[]=ed&episodeLength="@ + quantity::millis_text(length),
        aniskip_url_of(base_url + seq!['/'], path, mal_id, episode, length) == aniskip_url_of(
            base_url,
            path,
            mal_id,
            episode,
            length,
        ),
{
    assert((base_url + seq!['/']).drop_last() =~= base_url);
    assert((base_url + seq!['/']).last() == '/');
}

/// An anime episode goes by its number over all seasons where that is known, else
/// by its number in the season; a length that is not known, or not positive, is
/// asked for as none.
pub proof fn anime_goes_by_absolute_numbers(c: MediaContext)
    ensures
        c.absolute_episode_number is Some ==> anime_episode(c) == c.absolute_episode_number,
        c.absolute_episode_number is None ==> anime_episode(c) == c.episode_number,
        c.duration is None ==> anime_length(c) == 0,
        c.duration is Some && c.duration->0 <= 0 ==> anime_length(c) == 0,
        c.duration is Some && c.duration->0 > 0 ==> anime_length(c) == c.duration->0,
{
}

/// What is kept of an error names the extension it came from.
pub proof fn kept_errors_name_their_origin(
    name: Seq<char>,
    detail: Json,
    url: Seq<char>,
    o: ProviderOrigin,
)
    requires
        name == "error"@ || name == "status"@,
    ensures
        json::json_get(error_json(name, detail, url, Some(o)), "extension_id"@) == Some(
            Json::Text(o.extension_id@),
        ),
        json::json_get(error_json(name, detail, url, Some(o)), "provider_id"@) == Some(
            Json::Text(o.provider_id@),
        ),
        json::json_get(error_json(name, detail, url, Some(o)), name) == Some(detail),
        json::json_get(error_json(name, detail, url, None), name) == Some(detail),
{
    lemma_error_names_differ();
    reveal_strlit("extension_id");
    reveal_strlit("provider_id");
    assert("extension_id"@.len() == 12 && "provider_id"@.len() == 11);
    let m = error_json(name, detail, url, Some(o))->Object_0;
    let plain = error_json(name, detail, url, None)->Object_0;
    json::lemma_lookup_at(plain, name, 0);
    if name == "error"@ {
        json::lemma_lookup_at(m, "error"@, 0);
        json::lemma_lookup_at(m, "extension_id"@, 1);
        json::lemma_lookup_at(m, "provider_id"@, 2);
    } else {
        json::lemma_lookup_at(m, "extension_id"@, 0);
        json::lemma_lookup_at(m, "provider_id"@, 1);
        json::lemma_lookup_at(m, "status"@, 2);
    }
}

/// A response is read up to 262144 bytes and refused beyond them; a status is a success
/// from 200 up to 299.
pub proof fn long_responses_are_refused(
    length: u64,
    read: Result<(), SegmentError>,
    status: u16,
    success: bool,
)
    requires
        call_ensures(check_response_length, (length,), read),
        call_ensures(is_success_status, (status,), success),
    ensures
        read is Ok <==> length <= 262_144,
        success <==> 200 <= status <= 299,
{
}

/// A provider that is not asked is skipped with the reason, and one that was asked too
/// often is put off; neither has a response or counts candidates.
pub proof fn providers_that_are_not_asked(
    provider_kind: &str,
    reason: &str,
    skipped: ProviderLookupResult,
    limited: ProviderLookupResult,
)
    requires
        call_ensures(provider_skipped, (provider_kind, reason), skipped),
        call_ensures(provider_rate_limited, (provider_kind,), limited),
    ensures
        skipped.outcome.provider_kind@ == provider_kind@,
        skipped.outcome.status@ == "skipped"@,
        skipped.outcome.reason is Some && skipped.outcome.reason->0@ == reason@,
        skipped.response is None && !skipped.outcome.cache_hit && skipped.outcome.enabled,
        skipped.outcome.candidate_count == 0,
        limited.outcome.provider_kind@ == provider_kind@,
        limited.outcome.status@ == "rate_limited"@,
        limited.outcome.reason is Some && limited.outcome.reason->0@
            == "provider_rate_limit_exceeded"@,
        limited.response is None && !limited.outcome.cache_hit && limited.outcome.enabled,
        limited.outcome.candidate_count == 0,
{
}

/// An earlier reply answers a lookup just where there is one and no fresh one is asked
/// for, with its status and its response, as one that was kept.
pub proof fn kept_replies_answer(
    force_refresh: bool,
    provider_kind: &str,
    cached: Option<CachedProviderResponse>,
    r: Option<ProviderLookupResult>,
)
    requires
        call_ensures(answered_from_cache, (force_refresh, provider_kind, cached), r),
    ensures
        r is Some <==> cached is Some && !force_refresh,
        r is Some ==> {
            &&& r->0.outcome.cache_hit
            &&& r->0.outcome.status@ == cached->0.status@
            &&& r->0.outcome.provider_kind@ == provider_kind@
            &&& r->0.response is Some <==> cached->0.response is Some
            &&& r->0.response is Some ==> r->0.response->0@ == cached->0.response->0@
            &&& r->0.outcome.candidate_count == 0
        },
{
}

/// What a stored error tells is its message, else its status.
pub proof fn stored_errors_tell_their_message(stored: Option<&JsonValue>, r: Option<JsonValue>)
    requires
        call_ensures(cached_error_detail, (stored,), r),
    ensures
        stored is None ==> r is None,
        stored is Some && json::json_get(stored->0@, "error"@) is Some ==> r is Some && Some(r->0@)
            == json::json_get(stored->0@, "error"@),
        stored is Some && json::json_get(stored->0@, "error"@) is None && json::json_get(
            stored->0@,
            "status"@,
        ) is Some ==> r is Some && Some(r->0@) == json::json_get(stored->0@, "status"@),
{
}

/// TheIntroDB is asked about a film or episode with an IMDb id, under the key of that
/// film or episode and at the address in the settings or its own.
pub proof fn theintrodb_lookups_go_by_imdb(
    context: &ProviderMediaContext,
    provider_settings: Option<&JsonValue>,
    plan: LookupPlan,
    request: Result<Option<String>, SegmentError>,
)
    requires
        call_ensures(plan_theintrodb_lookup, (context,), plan),
        call_ensures(theintrodb_request, (context, provider_settings), request),
    ensures
        context.imdb_id is None ==> plan is Skip && plan->Skip_0.outcome.status@ == "skipped"@
            && plan->Skip_0.outcome.reason->0@ == "missing_imdb_id"@
            && plan->Skip_0.outcome.provider_kind@ == "theintrodb"@ && request is Ok
            && request->Ok_0 is None,
        context.imdb_id is Some ==> plan is Look && plan->Look_0@ == theintrodb_key(
            context.imdb_id->0@,
            context.season_number,
            context.episode_number,
        ),
        context.imdb_id is Some && provider_settings is None ==> request is Ok && request->Ok_0
            is Some && request->Ok_0->0@ == theintrodb_url_of(
            "https://api.introdb.app"@,
            context.imdb_id->0@,
            context.season_number,
            context.episode_number,
        ),
{
    reveal_strlit("https://api.introdb.app");
    reveal_strlit("https://");
    lemma_plain_address("https://api.introdb.app"@);
}

proof fn lemma_plain_address(a: Seq<char>)
    requires
        a.len() > 8,
        a.take(8) =~= "https://"@,
        "https://"@.len() == 8,
        "https://"@[0] == 'h',
        '!' <= a.last() <= '~',
    ensures
        settings::base_url_of(None, a) == Ok::<Seq<char>, Seq<char>>(a),
{
    let none = Seq::<char>::empty();
    assert(a[0] == a.take(8)[0]);
    assert(none + a + none =~= a);
    text::outer_white_space_is_left_out(none, a, none);
}

/// AniSkip is asked about an episode with a number at MyAnimeList, under the key of that
/// episode, first at its newer address and then, where nothing is found, at its older
/// one.
pub proof fn aniskip_lookups_go_by_episode(
    context: &ProviderMediaContext,
    provider_settings: Option<&JsonValue>,
    plan: Result<LookupPlan, SegmentError>,
    requests: Result<Option<(String, String)>, SegmentError>,
)
    requires
        call_ensures(plan_aniskip_lookup, (context,), plan),
        call_ensures(aniskip_requests, (context, provider_settings), requests),
    ensures
        ({
            let episode = if context.absolute_episode_number is Some {
                context.absolute_episode_number
            } else {
                context.episode_number
            };
            let length = if context.duration is Some && context.duration->0 > 0 {
                context.duration->0 as int
            } else {
                0
            };
            &&& context.mal_id is None ==> plan is Ok && plan->Ok_0 is Skip
                && plan->Ok_0->Skip_0.outcome.reason->0@ == "missing_mal_id"@
                && plan->Ok_0->Skip_0.outcome.provider_kind@ == "aniskip"@
            &&& context.mal_id is Some && episode is None ==> plan is Err && requests is Err
            &&& context.mal_id is Some && episode is Some ==> plan is Ok && plan->Ok_0 is Look
                && plan->Ok_0->Look_0@ == aniskip_key(context.mal_id->0@, episode->0, length)
            &&& context.mal_id is Some && episode is Some && provider_settings is None ==> {
                &&& requests is Ok && requests->Ok_0 is Some
                &&& ({
                    let (newer, older) = requests->Ok_0->0;
                    &&& newer@ == aniskip_url_of(
                        "https://api.aniskip.com"@,
                        "/v1/skip-times/"@,
                        context.mal_id->0@,
                        episode->0,
                        length,
                    )
                    &&& older@ == aniskip_url_of(
                        "https://api.aniskip.com"@,
                        "/skip-times/"@,
                        context.mal_id->0@,
                        episode->0,
                        length,
                    )
                })
            }
        }),
{
    reveal_strlit("https://api.aniskip.com");
    reveal_strlit("https://");
    lemma_plain_address("https://api.aniskip.com"@);
}

/// The older address of AniSkip is asked just where nothing was found at the newer one,
/// and that was not known from before.
pub proof fn aniskip_is_asked_again_where_nothing_is_found(result: &ProviderLookupResult, r: bool)
    requires
        call_ensures(aniskip_asks_again, (result,), r),
    ensures
        r <==> result.outcome.status@ == "not_found"@ && !result.outcome.cache_hit,
{
}

/// The older names of a provider's settings are read where the newer ones are not there.
pub proof fn older_names_are_read(settings: Json, n: u64)
    ensures
        json::json_get(settings, "cache_ttl_seconds"@) is None && json::json_get(
            settings,
            "cacheTtlSeconds"@,
        ) == Some(Json::Number(JsonNumber::Unsigned(n))) && n <= 2_592_000 ==> kept_for(
            Some(settings),
        ) == n,
        json::json_get(settings, "rate_limit_per_minute"@) is None && json::json_get(
            settings,
            "rateLimitPerMinute"@,
        ) == Some(Json::Number(JsonNumber::Unsigned(n))) && 1 <= n <= 600 ==> rate_limit_of(
            Some(settings),
        ) == n,
{
}

} // verus!
