use media_segments::analysis::{
    analysis_options, analysis_series_type, distinct_media_file_ids, plan_builtin_analysis,
    plan_local_analysis, push_item_analysis_failure, AnalysisFile, AnalysisSeason, AnalysisStep,
    MediaSegmentItemAnalyzeRequest, MediaSegmentItemAnalyzeSummary,
};
use media_segments::candidate::{
    normalize_candidate_input, validate_candidate, CandidateRow, ResolvedItem, SegmentCandidateInput,
};
use media_segments::certification::{
    certification_provider_kind, certify_media_segment_provider,
    marketplace_segment_provider_certification_media_types,
    media_segment_provider_certification_context, run_media_segment_provider_certification_probe,
    unsupported_scope_probe, MediaSegmentProviderCertificationProbe,
};
use media_segments::consts;
use media_segments::context::{
    load_external_id, load_provider_media_context, EpisodeRow, MovieRow, ProviderMediaContext,
};
use media_segments::filters::{
    list_limit, normalize_certification_filters, normalize_job_filters, normalize_review_filters,
    MediaSegmentCandidateReviewFilters, MediaSegmentProviderCertificationFilters,
};
use media_segments::jobs::{timestamp_after, MediaSegmentJobListFilters};
use media_segments::json::{JsonNumber, JsonValue};
use media_segments::lookup::{
    acquire_provider_rate_limit, aniskip_asks_again, aniskip_requests, answered_from_cache,
    cached_error_detail, check_response_length, conclude_provider_reply, directory_path,
    media_segment_provider_lookup_url, plan_aniskip_lookup, plan_theintrodb_lookup,
    provider_rate_limited, provider_skipped, theintrodb_request, CachedProviderResponse, LookupPlan,
    ProviderOrigin, ProviderReply, RateWindow,
};
use media_segments::marketplace::{
    available_marketplace_segment_providers, marketplace_invocation,
    marketplace_provider_media_type_for_context, marketplace_segment_provider_cache_key,
    marketplace_segment_provider_response_to_candidates, marketplace_sweep_kind,
    marketplace_due_scope, segment_provider_supports_media_type,
    select_marketplace_segment_provider,
    select_marketplace_segment_provider_by_id, InstalledExtension, InstalledInstance,
    InstalledProvider, MarketplaceSegmentProviderSelection,
};
use media_segments::quantity::Quantity;
use media_segments::responses::{
    aniskip_response_to_candidates, provider_response_to_candidates, provider_segment_type,
    theintrodb_response_to_candidates,
};

fn from_serde(v: &serde_json::Value) -> JsonValue {
    match v {
        serde_json::Value::Null => JsonValue::Null,
        serde_json::Value::Bool(b) => JsonValue::Bool(*b),
        serde_json::Value::Number(n) => {
            if let Some(u) = n.as_u64() {
                JsonValue::Number(JsonNumber::Unsigned(u))
            } else if let Some(i) = n.as_i64() {
                JsonValue::Number(JsonNumber::Negative(i))
            } else {
                let f: f64 = n.as_f64().expect("a number");
                JsonValue::Number(JsonNumber::Fraction((f * 1_000_000.0).round() as i64))
            }
        }
        serde_json::Value::String(s) => JsonValue::Text(s.clone()),
        serde_json::Value::Array(a) => JsonValue::Array(a.iter().map(from_serde).collect()),
        serde_json::Value::Object(o) => {
            JsonValue::Object(o.iter().map(|(k, v)| (k.clone(), from_serde(v))).collect())
        }
    }
}

fn js(text: &str) -> JsonValue {
    let value: serde_json::Value = serde_json::from_str(text).expect("valid JSON");
    from_serde(&value)
}

fn to_serde(v: &JsonValue) -> serde_json::Value {
    match v {
        JsonValue::Null => serde_json::Value::Null,
        JsonValue::Bool(b) => serde_json::Value::Bool(*b),
        JsonValue::Number(JsonNumber::Unsigned(n)) => serde_json::Value::from(*n),
        JsonValue::Number(JsonNumber::Negative(n)) => serde_json::Value::from(*n),
        JsonValue::Number(JsonNumber::Fraction(n)) => serde_json::Value::from(*n as f64 / 1_000_000.0),
        JsonValue::Text(s) => serde_json::Value::from(s.as_str()),
        JsonValue::Array(a) => serde_json::Value::Array(a.iter().map(to_serde).collect()),
        JsonValue::Object(o) => {
            serde_json::Value::Object(o.iter().map(|(k, v)| (k.clone(), to_serde(v))).collect())
        }
    }
}

fn parsed(text: &str) -> serde_json::Value {
    serde_json::from_str(text).expect("valid JSON")
}

const SECOND: i64 = 1_000_000;

fn movie() -> ProviderMediaContext {
    let row = MovieRow {
        movie_id: "movie-1".to_string(),
        external_imdb: Some("tt1234567".to_string()),
        external_tmdb: Some("12345".to_string()),
        external_ids: Vec::new(),
    };
    load_provider_media_context("file-1", Some(&row), None, Some(1_800 * SECOND)).expect("a film")
}

fn episode() -> ProviderMediaContext {
    let row = EpisodeRow {
        episode_id: "episode-1".to_string(),
        season_number: Some(1),
        episode_number: Some(1),
        absolute_episode_number: None,
        external_imdb: Some("tt0903747".to_string()),
        external_tvdb_series: None,
        external_anilist: None,
        episode_external_ids: Vec::new(),
        series_external_ids: vec![("mal".to_string(), "5114".to_string())],
    };
    load_provider_media_context("file-2", None, Some(&row), Some(1_500 * SECOND)).expect("an episode")
}

fn provider(implementation: &str, media_types: &str, segment_types: &str) -> InstalledProvider {
    InstalledProvider {
        provider_id: "3f2c1b9a-0000-4000-8000-000000000001".to_string(),
        capability: consts::MEDIA_SEGMENT_PROVIDER_CAPABILITY.to_string(),
        healthy: true,
        implementation: Some(implementation.to_string()),
        has_endpoint: true,
        scope: Some(js(&format!(
            r#"{{"media_types": {media_types}, "segment_types": {segment_types}, "actions": ["lookup"]}}"#
        ))),
        extension: Some(InstalledExtension {
            extension_id: "ext.markers".to_string(),
            name: "Markers".to_string(),
            version: "1.2.3".to_string(),
            enabled: true,
        }),
        instance: Some(InstalledInstance {
            instance_id: "3f2c1b9a-0000-4000-8000-000000000002".to_string(),
            instance_name: "Markers".to_string(),
            runtime_version: None,
            enabled: true,
        }),
    }
}

fn markers() -> MarketplaceSegmentProviderSelection {
    let details = vec![provider(
        "community-markers",
        r#"["movie", "series", "anime"]"#,
        r#"["intro", "credits"]"#,
    )];
    select_marketplace_segment_provider(&details, "community_markers", Some("movie")).expect("a provider")
}

/// The candidates that are accepted for a file of so many seconds.
fn accepted_candidates(inputs: Vec<SegmentCandidateInput>, seconds: i64) -> Vec<CandidateRow> {
    inputs
        .into_iter()
        .map(|input| {
            normalize_candidate_input(input, true, &ResolvedItem::Unlinked).expect("a candidate")
        })
        .filter(|row| validate_candidate(row, Some(seconds * SECOND)).state == "accepted")
        .collect()
}

#[test]
fn theintrodb_refresh_uses_strong_imdb_identity_and_activates_segments() {
    let context = movie();
    match plan_theintrodb_lookup(&context) {
        LookupPlan::Look(key) => {
            assert_eq!(key, "imdb:tt1234567:season:movie:episode:movie")
        }
        LookupPlan::Skip(_) => panic!("a film with an id is looked up"),
    }
    let url = theintrodb_request(&context, None).expect("settings").expect("an address");
    assert!(url.starts_with("https://api.introdb.app/segments?"));
    assert!(url.contains("tt1234567"));
    let response = js(
        r#"{"segments": [{"id": "intro-1", "type": "intro", "start_sec": 0, "end_sec": 45, "confidence": 0.95}]}"#,
    );
    let candidates = provider_response_to_candidates(consts::PROVIDER_THEINTRODB, &context, &response);
    assert_eq!(candidates.len(), 1);
    assert_eq!(candidates[0].segment_type, "intro");
    assert_eq!(candidates[0].start, Quantity::Micros(0));
    assert_eq!(candidates[0].end, Quantity::Micros(45 * SECOND));
    assert_eq!(candidates[0].confidence, Quantity::Micros(950_000));
    assert_eq!(candidates[0].media_file_id, "file-1");
}

#[test]
fn theintrodb_refresh_accepts_live_named_segment_shape() {
    let response = js(r#"{
        "imdb_id": "tt0903747", "season": 1, "episode": 1,
        "intro": {"start_sec": 2, "end_sec": 58, "start_ms": 2000, "end_ms": 58000,
                  "confidence": 1, "submission_count": 3},
        "recap": null,
        "outro": {"start_sec": 3431, "end_sec": 3500, "start_ms": 3431000, "end_ms": 3500000,
                  "confidence": 1, "submission_count": 1}
    }"#);
    let candidates = theintrodb_response_to_candidates(&episode(), &response);
    let types: Vec<&str> = candidates.iter().map(|c| c.segment_type.as_str()).collect();
    assert_eq!(types, vec!["intro", "outro"]);
    assert_eq!(candidates[1].start, Quantity::Micros(3_431 * SECOND));
    assert_eq!(candidates[1].end, Quantity::Micros(3_500 * SECOND));
    let (lookup, _) = conclude_provider_reply(
        consts::PROVIDER_THEINTRODB,
        "https://provider.test/segments",
        None,
        None,
        ProviderReply::Response(response),
    );
    assert_eq!(lookup.outcome.status, "ok");
    let accepted = accepted_candidates(candidates, 3_600);
    let types: Vec<&str> = accepted.iter().map(|c| c.segment_type.as_str()).collect();
    assert_eq!(types, vec!["intro", "outro"]);
}

#[test]
fn aniskip_refresh_uses_mal_episode_identity_and_activates_op_ed() {
    let context = episode();
    assert!(matches!(plan_aniskip_lookup(&context), Ok(LookupPlan::Look(_))));
    let (first, second) = aniskip_requests(&context, None).expect("settings").expect("addresses");
    assert!(first.starts_with("https://api.aniskip.com/v1/skip-times/5114/1"));
    assert!(second.starts_with("https://api.aniskip.com/skip-times/5114/1"));
    assert!(first.contains("op") && first.contains("ed"));
    assert!(!first.contains("mixed") && !first.contains("recap"));
    let response = js(r#"{"found": true, "results": [
        {"skipId": "op-1", "skipType": "op", "interval": {"startTime": 30.0, "endTime": 90.0}},
        {"skipId": "ed-1", "skipType": "ed", "interval": {"startTime": 1320.0, "endTime": 1410.0}}
    ]}"#);
    let candidates = aniskip_response_to_candidates(&context, &response);
    let types: Vec<&str> = candidates.iter().map(|c| c.segment_type.as_str()).collect();
    assert_eq!(types, vec!["intro", "outro"]);
}

#[test]
fn aniskip_refresh_falls_back_to_legacy_path_on_v1_not_found() {
    let (result, _) = conclude_provider_reply(
        consts::PROVIDER_ANISKIP,
        "https://api.aniskip.com/v1/skip-times/5114/1",
        None,
        None,
        ProviderReply::Refused(404),
    );
    assert!(aniskip_asks_again(&result));
    let (result, _) = conclude_provider_reply(
        consts::PROVIDER_ANISKIP,
        "https://api.aniskip.com/v1/skip-times/5114/1",
        None,
        None,
        ProviderReply::Refused(500),
    );
    assert!(!aniskip_asks_again(&result));
    let (first, second) = aniskip_requests(&episode(), None).expect("settings").expect("addresses");
    assert!(first.contains("/v1/skip-times/5114/1"));
    assert!(!second.contains("/v1/"));
    assert!(second.contains("/skip-times/5114/1"));
    let response = js(r#"{"found": true, "results": [{
        "skipId": "op-legacy", "skipType": "op", "interval": {"startTime": 30.0, "endTime": 90.0}
    }]}"#);
    let (result, kept) = conclude_provider_reply(
        consts::PROVIDER_ANISKIP,
        &second,
        None,
        None,
        ProviderReply::Response(response.clone()),
    );
    assert_eq!(result.outcome.status, "ok");
    assert_eq!(kept.status, "ok");
    assert_eq!(kept.ttl_seconds, consts::DEFAULT_PROVIDER_CACHE_TTL_SECONDS);
    let written = timestamp_after(1_783_189_815, kept.ttl_seconds);
    assert_eq!(kept.expires_at(1_783_189_815), written);
    assert_ne!(written, "2026-07-04 18:30:15");
    let accepted = accepted_candidates(
        provider_response_to_candidates(consts::PROVIDER_ANISKIP, &episode(), &response),
        1_500,
    );
    assert_eq!(accepted.len(), 1);
    assert_eq!(accepted[0].segment_type, "intro");
}

#[test]
fn lookups_without_ids_are_skipped() {
    let mut context = movie();
    context.imdb_id = None;
    match plan_theintrodb_lookup(&context) {
        LookupPlan::Skip(result) => {
            assert_eq!(result.outcome.status, "skipped");
            assert_eq!(result.outcome.reason.as_deref(), Some("missing_imdb_id"));
        }
        LookupPlan::Look(_) => panic!("nothing to look up"),
    }
    assert_eq!(provider_skipped("aniskip", "why").outcome.reason.as_deref(), Some("why"));
}

#[test]
fn theintrodb_refresh_outage_caches_error_without_activation() {
    let (result, write) = conclude_provider_reply(
        consts::PROVIDER_THEINTRODB,
        "https://api.introdb.app/segments?imdb_id=tt3334445",
        None,
        None,
        ProviderReply::Refused(500),
    );
    assert_eq!(result.outcome.status, "error");
    assert_eq!(result.outcome.reason.as_deref(), Some("provider_http_500"));
    assert!(result.response.is_none());
    assert_eq!(write.status, "error");
    assert_eq!(write.ttl_seconds, 900);
    let kept = to_serde(&write.error.expect("an error"));
    assert_eq!(kept["status"], serde_json::Value::from(500));
    assert!(!kept["url"].as_str().expect("an address").contains("tt3334445"));
}

#[test]
fn a_reply_is_kept_with_its_origin() {
    let origin = ProviderOrigin { provider_id: "p-1".to_string(), extension_id: "e-1".to_string() };
    let (result, write) = conclude_provider_reply(
        "community_markers",
        "https://markers.test/lookup?key=1",
        Some(&origin),
        None,
        ProviderReply::Failed("connection refused".to_string()),
    );
    assert_eq!(result.outcome.reason.as_deref(), Some("provider_request_failed"));
    let kept = to_serde(&write.error.expect("an error"));
    assert_eq!(kept["provider_id"], serde_json::Value::from("p-1"));
    assert_eq!(kept["error"], serde_json::Value::from("connection refused"));
    let (result, write) = conclude_provider_reply(
        "community_markers",
        "https://markers.test/lookup",
        Some(&origin),
        None,
        ProviderReply::Response(js(r#"{"segments": []}"#)),
    );
    assert_eq!(result.outcome.status, "ok");
    assert_eq!(write.ttl_seconds, 86_400);
}

#[test]
fn an_earlier_reply_answers_unless_a_fresh_one_is_asked_for() {
    let cached = || {
        Some(CachedProviderResponse {
            status: "ok".to_string(),
            response: Some(js(r#"{"segments": []}"#)),
            reason: None,
        })
    };
    let answer = answered_from_cache(false, "theintrodb", cached()).expect("an answer");
    assert!(answer.outcome.cache_hit);
    assert_eq!(answer.outcome.status, "ok");
    assert!(answered_from_cache(true, "theintrodb", cached()).is_none());
    assert!(answered_from_cache(false, "theintrodb", None).is_none());
    let detail = cached_error_detail(Some(&js(r#"{"status": 500}"#))).expect("a detail");
    assert_eq!(to_serde(&detail), serde_json::Value::from(500));
}

#[test]
fn provider_rate_limit_blocks_second_network_acquire_in_window() {
    let settings = js(r#"{"rate_limit_per_minute": 1}"#);
    let now: i64 = 1_783_189_815;
    let (first, window) = acquire_provider_rate_limit(None, Some(&settings), now);
    assert!(first);
    let window = window.expect("a window");
    assert_eq!(window.window_started_at, "2026-07-04 18:30:15");
    assert_eq!(window.requests_in_window, 1);
    let (second, after) = acquire_provider_rate_limit(
        Some(RateWindow {
            window_started_at: window.window_started_at.clone(),
            requests_in_window: window.requests_in_window,
        }),
        Some(&settings),
        now + 60,
    );
    assert!(!second);
    if let Some(after) = after {
        assert_eq!(after.requests_in_window, 1);
    }
    let (third, _) =
        acquire_provider_rate_limit(Some(window), Some(&settings), now + 61);
    assert!(third);
    assert_eq!(provider_rate_limited("theintrodb").outcome.status, "rate_limited");
}

#[test]
fn a_long_response_is_refused() {
    assert!(check_response_length(consts::MEDIA_SEGMENT_PROVIDER_RESPONSE_MAX_BYTES).is_ok());
    let error = check_response_length(consts::MEDIA_SEGMENT_PROVIDER_RESPONSE_MAX_BYTES + 1)
        .expect_err("too long");
    assert!(error.message.contains("media segment provider response exceeds"));
}

#[test]
fn the_lookup_address_stands_below_the_base() {
    assert_eq!(
        media_segment_provider_lookup_url("http://127.0.0.1:8080").expect("an address"),
        "http://127.0.0.1:8080/segment-provider/lookup"
    );
    assert_eq!(
        media_segment_provider_lookup_url("http://127.0.0.1:8080/api").expect("an address"),
        "http://127.0.0.1:8080/api/segment-provider/lookup"
    );
    assert!(media_segment_provider_lookup_url("not an address").is_err());
    assert_eq!(directory_path("/api"), "/api/");
    assert_eq!(directory_path("/api/"), "/api/");
}

#[test]
fn marketplace_segment_provider_job_invokes_extension_and_activates_segments() {
    let selected = markers();
    let context = movie();
    let response = js(r#"{"segments": [{
        "id": "fixture-intro-1", "type": "intro", "start_seconds": 15.0, "end_seconds": 75.0,
        "confidence": 0.93, "identity_strength": "external_id_exact",
        "provider_id": "fixture_segments", "provider_version": "1.2.3"
    }]}"#);
    let candidates = marketplace_segment_provider_response_to_candidates(
        "community_markers",
        &selected,
        &context,
        &response,
    );
    assert_eq!(candidates.len(), 1);
    assert_eq!(candidates[0].segment_type, "intro");
    assert_eq!(candidates[0].provider_kind, "community_markers");
    assert_eq!(candidates[0].confidence, Quantity::Micros(930_000));
    let accepted = accepted_candidates(candidates, 1_800);
    assert_eq!(accepted.len(), 1);
    assert_eq!(accepted[0].segment_type, "intro");
    assert_eq!(accepted[0].provider_kind, "community_markers");
    let (lookup, kept) = conclude_provider_reply(
        "community_markers",
        "https://markers.test/segment-provider/lookup",
        None,
        None,
        ProviderReply::Response(response),
    );
    assert_eq!(lookup.outcome.provider_kind, "community_markers");
    assert_eq!(lookup.outcome.status, "ok");
    assert_eq!(kept.status, "ok");
    let request = to_serde(&marketplace_invocation(&selected, &context, None));
    assert_eq!(
        request["schema_version"],
        serde_json::Value::from(consts::MEDIA_SEGMENT_PROVIDER_SCHEMA_VERSION)
    );
    assert_eq!(request["request"]["media_file_id"], serde_json::Value::from("file-1"));
    assert_eq!(request["request"]["external_ids"]["imdb"], serde_json::Value::from("tt1234567"));
    assert_eq!(request["request"]["requested_segment_types"][0], serde_json::Value::from("intro"));
    assert_eq!(
        request["provider"]["provider_id"],
        serde_json::Value::from("3f2c1b9a-0000-4000-8000-000000000001")
    );
    assert!(request["request"].get("watch_state").is_none());
    assert!(request["request"].get("playback").is_none());
}

#[test]
fn extension_segments_outside_their_scope_are_dropped() {
    let response = js(r#"{"segments": [
        {"type": "recap", "start_seconds": 15.0, "end_seconds": 75.0, "confidence": 0.9}
    ]}"#);
    let candidates = marketplace_segment_provider_response_to_candidates(
        "community_markers",
        &markers(),
        &movie(),
        &response,
    );
    assert!(candidates.is_empty());
}

#[test]
fn only_providers_that_can_answer_are_available() {
    let mut off = provider("community-markers", r#"["movie"]"#, r#"["intro"]"#);
    off.healthy = false;
    let other = provider("other-markers", r#"["series"]"#, r#"["intro"]"#);
    let details = vec![off, other];
    let all = available_marketplace_segment_providers(&details, None, None).expect("providers");
    assert_eq!(all.len(), 1);
    assert!(segment_provider_supports_media_type(&all[0], "series"));
    assert!(!segment_provider_supports_media_type(&all[0], "movie"));
    let scope = marketplace_due_scope(&all[0]);
    assert!(!scope.films && scope.episodes && scope.every_episode);
    assert!(select_marketplace_segment_provider(&details, "community_markers", None).is_err());
    assert!(select_marketplace_segment_provider_by_id("x", None).is_err());
    assert_eq!(marketplace_provider_media_type_for_context(&movie()), "movie");
    let key = marketplace_segment_provider_cache_key(&all[0], &movie());
    assert_eq!(
        key,
        "provider:3f2c1b9a-0000-4000-8000-000000000001:media_file:file-1:duration:1800.000:season:none:episode:none:absolute:none"
    );
}

#[test]
fn marketplace_segment_provider_due_enqueue_queues_enabled_provider_jobs() {
    let selected = markers();
    let on = js(r#"{"community_markers": {"enabled": true}}"#);
    let off = js(r#"{"community_markers": {"enabled": false}}"#);
    assert_eq!(
        marketplace_sweep_kind(&selected, &on).expect("a kind").as_deref(),
        Some("community_markers")
    );
    assert!(marketplace_sweep_kind(&selected, &off).expect("a kind").is_none());
    let mut unnamed = markers();
    unnamed.implementation = None;
    assert!(marketplace_sweep_kind(&unnamed, &on).expect("a kind").is_none());
    unnamed.implementation = Some("bad name!".to_string());
    assert!(marketplace_sweep_kind(&unnamed, &on).is_err());
}

fn certified_probe(media_type: &str) -> MediaSegmentProviderCertificationProbe {
    let context = media_segment_provider_certification_context(media_type);
    let response = js(r#"{"segments": [{
        "id": "cert-intro", "type": "intro", "start_seconds": 10.0, "end_seconds": 70.0,
        "confidence": 0.90, "identity_strength": "external_id_exact"
    }]}"#);
    run_media_segment_provider_certification_probe(&markers(), &context, Ok(response))
}

#[test]
fn marketplace_segment_provider_certification_persists_probe_evidence() {
    let selected = markers();
    let types = marketplace_segment_provider_certification_media_types(&selected);
    assert_eq!(types, vec!["movie", "series", "anime"]);
    let probes: Vec<MediaSegmentProviderCertificationProbe> =
        types.iter().map(|t| certified_probe(t)).collect();
    let kind = certification_provider_kind(&selected).expect("a kind");
    assert_eq!(kind, "community_markers");
    let record = certify_media_segment_provider(
        "cert-1",
        &selected,
        &kind,
        &probes,
        1_783_189_815,
    );
    assert_eq!(record.certified_at.as_deref(), Some("2026-07-04 18:30:15"));
    assert_eq!(record.expires_at.as_deref(), Some("2026-08-03 18:30:15"));
    assert_eq!(record.provider_id, selected.provider_id);
    assert_eq!(record.provider_kind, "community_markers");
    assert_eq!(record.status, "certified");
    for media_type in &types {
        let context = media_segment_provider_certification_context(media_type);
        let request = to_serde(&marketplace_invocation(&selected, &context, None));
        assert_eq!(
            request["schema_version"],
            serde_json::Value::from(consts::MEDIA_SEGMENT_PROVIDER_SCHEMA_VERSION)
        );
        assert!(request["request"].get("watch_state").is_none());
        assert!(request["request"].get("playback").is_none());
        assert!(request["request"].get("external_ids").is_some());
    }
    let results = to_serde(&record.media_type_results);
    assert_eq!(results["movie"]["status"], serde_json::Value::from("certified"));
    assert_eq!(results["series"]["status"], serde_json::Value::from("certified"));
    assert_eq!(results["anime"]["status"], serde_json::Value::from("certified"));
}

#[test]
fn one_failed_probe_spoils_a_certification() {
    let selected = markers();
    let context = media_segment_provider_certification_context("movie");
    let failed = run_media_segment_provider_certification_probe(
        &selected,
        &context,
        Err("provider returned 503".to_string()),
    );
    assert_ne!(failed.status, "certified");
    assert_eq!(failed.failure_class.as_deref(), Some("provider_http_error"));
    let record = certify_media_segment_provider(
        "cert-1",
        &selected,
        "community_markers",
        &vec![certified_probe("series"), failed],
        1_783_189_815,
    );
    assert_ne!(record.status, "certified");
    assert_ne!(unsupported_scope_probe().status, "certified");
}

#[test]
fn segments_of_a_certified_response_must_be_sound() {
    let context = media_segment_provider_certification_context("movie");
    let bad = [
        r#"{"segments": [{"type": "chorus", "start_seconds": 1, "end_seconds": 2}]}"#,
        r#"{"segments": [{"type": "intro", "start_seconds": 70, "end_seconds": 10, "confidence": 0.9}]}"#,
        r#"{"other": 1}"#,
    ];
    for text in bad {
        let probe = run_media_segment_provider_certification_probe(&markers(), &context, Ok(js(text)));
        assert_ne!(probe.status, "certified", "{text}");
    }
}

#[test]
fn external_ids_are_read_in_their_normal_form() {
    let rows = vec![
        ("mal".to_string(), " 5114 ".to_string()),
        ("imdb".to_string(), "TT0903747".to_string()),
    ];
    assert_eq!(load_external_id(&rows, &vec!["mal", "myanimelist"]), Some("5114".to_string()));
    assert_eq!(load_external_id(&rows, &vec!["imdb"]), Some("tt0903747".to_string()));
    assert_eq!(load_external_id(&rows, &vec!["tvdb"]), None);
    assert!(load_provider_media_context("file-3", None, None, None).is_err());
    assert_eq!(episode().mal_id.as_deref(), Some("5114"));
}

#[test]
fn listings_are_filtered_by_normal_forms() {
    let jobs = normalize_job_filters(&MediaSegmentJobListFilters {
        status: Some(" Queued ".to_string()),
        provider_kind: Some("Community-Markers".to_string()),
        ..MediaSegmentJobListFilters::default()
    })
    .expect("filters");
    assert_eq!(jobs.status.as_deref(), Some("queued"));
    assert_eq!(jobs.provider_kind.as_deref(), Some("community_markers"));
    assert_eq!(jobs.limit, list_limit(None));
    assert!(
        normalize_job_filters(&MediaSegmentJobListFilters {
            status: Some("elsewhere".to_string()),
            ..MediaSegmentJobListFilters::default()
        })
        .is_err()
    );
    let certifications = normalize_certification_filters(&MediaSegmentProviderCertificationFilters {
        provider_id: Some("3F2C1B9A-0000-4000-8000-000000000001".to_string()),
        provider_kind: None,
        status: None,
        limit: Some(5),
    })
    .expect("filters");
    assert_eq!(certifications.limit, 5);
    assert!(
        normalize_certification_filters(&MediaSegmentProviderCertificationFilters {
            provider_id: Some("not a uuid".to_string()),
            provider_kind: None,
            status: None,
            limit: None,
        })
        .is_err()
    );
    assert!(
        normalize_review_filters(&MediaSegmentCandidateReviewFilters {
            media_file_id: None,
            item_type: None,
            item_id: None,
            segment_type: Some("chorus".to_string()),
            provider_kind: None,
            validation_state: None,
            validation_reason: None,
            low_confidence: None,
            limit: None,
        })
        .is_err()
    );
}

#[test]
fn analysis_plans_the_jobs_of_a_film() {
    let options = analysis_options(&MediaSegmentItemAnalyzeRequest {
        force: Some(true),
        include_builtins: None,
        include_local_detectors: None,
        priority: None,
    });
    assert!(options.force && options.include_builtins);
    let files = vec![AnalysisFile {
        media_file_id: "file-1".to_string(),
        settings: Ok(js(
            r#"{"theintrodb": {"enabled": true}, "local_visual_recurring": {"enabled": true}}"#,
        )),
    }];
    let builtin = plan_builtin_analysis("movie", &files, true, 50);
    assert!(builtin.iter().any(|s| matches!(s, AnalysisStep::ClearCache { .. })));
    assert!(builtin.iter().any(|s| matches!(s, AnalysisStep::Queue { .. })));
    let local = plan_local_analysis("movie", &files, &Vec::new(), 50);
    assert!(local.iter().all(|s| matches!(s, AnalysisStep::Queue { .. })));
    assert!(!local.is_empty());
}

#[test]
fn analysis_records_what_could_not_be_read() {
    let files = vec![AnalysisFile { media_file_id: "file-1".to_string(), settings: Err("broken".to_string()) }];
    let steps = plan_builtin_analysis("movie", &files, false, 50);
    assert!(steps.iter().all(|s| matches!(s, AnalysisStep::Fail(_))));
    let seasons = vec![AnalysisSeason { season_id: "season-1".to_string(), settings: Err("broken".to_string()) }];
    let steps = plan_local_analysis("series", &Vec::new(), &seasons, 50);
    assert!(steps.iter().any(|s| matches!(s, AnalysisStep::Fail(_))));
    let mut summary = MediaSegmentItemAnalyzeSummary {
        item_type: "movie".to_string(),
        item_id: "movie-1".to_string(),
        force: false,
        media_files_seen: 1,
        seasons_seen: 0,
        jobs: Vec::new(),
        failures: Vec::new(),
    };
    push_item_analysis_failure(&mut summary, "provider_refresh", "media_file", "file-1", "theintrodb", "broken");
    assert_eq!(summary.failures.len(), 1);
    assert_eq!(summary.failures[0].provider_kind, "theintrodb");
    let ids = vec!["a".to_string(), "b".to_string(), "a".to_string()];
    assert_eq!(distinct_media_file_ids(&ids), vec!["a", "b"]);
    assert_eq!(analysis_series_type("series", Some("series")).expect("a type"), "series");
}

#[test]
fn kept_replies_are_written_as_expected() {
    let (_, write) = conclude_provider_reply(
        "theintrodb",
        "https://api.introdb.app/segments",
        None,
        None,
        ProviderReply::Refused(404),
    );
    assert_eq!(write.status, "not_found");
    assert_eq!(to_serde(&write.response.expect("a response")), parsed(r#"{"found": false}"#));
}

#[test]
fn a_kept_reply_is_answered_alike() {
    let url = "https://provider.test/segments?imdb_id=tt1";
    let context = media_segment_provider_certification_context("movie");
    let keep = |reply: ProviderReply| {
        let (fresh, write) = conclude_provider_reply("theintrodb", url, None, None, reply);
        let again = answered_from_cache(
            false,
            "theintrodb",
            Some(CachedProviderResponse {
                status: write.status.to_string(),
                response: write.response,
                reason: None,
            }),
        )
        .expect("an answer");
        assert_eq!(again.outcome.status, fresh.outcome.status);
        assert!(again.outcome.cache_hit && !fresh.outcome.cache_hit);
        (fresh, again)
    };
    let (_, again) = keep(ProviderReply::Refused(404));
    let response = again.response.expect("what is kept");
    assert!(provider_response_to_candidates("theintrodb", &context, &response).is_empty());
    let (_, again) = keep(ProviderReply::Failed("no route".to_string()));
    assert!(again.response.is_none());
    let text = r#"{"segments": [{"segment_type": "intro", "start": 10, "end": 70}]}"#;
    let (fresh, again) = keep(ProviderReply::Response(js(text)));
    let one = provider_response_to_candidates("theintrodb", &context, &fresh.response.expect("one"));
    let two = provider_response_to_candidates("theintrodb", &context, &again.response.expect("two"));
    assert_eq!(one.len(), 1);
    assert_eq!(two.len(), 1);
    assert_eq!(one[0].start, two[0].start);
}

#[test]
fn a_provider_names_no_custom_segments() {
    assert_eq!(provider_segment_type(&js(r#"{"type": "custom"}"#)), None);
    assert_eq!(provider_segment_type(&js(r#"{"segment_type": " Custom "}"#)), None);
    for (word, kind) in [
        ("intro", "intro"),
        ("Opening", "intro"),
        ("op", "intro"),
        ("recap", "recap"),
        ("preview", "preview"),
        ("credit", "credits"),
        ("credits", "credits"),
        ("outro", "outro"),
        ("ending", "outro"),
        ("ed", "outro"),
    ] {
        let entry = js(&format!(r#"{{"type": "{word}"}}"#));
        assert_eq!(provider_segment_type(&entry).as_deref(), Some(kind));
    }

    let details = vec![provider("community-markers", r#"["movie"]"#, r#"["intro", "custom"]"#)];
    let selected = select_marketplace_segment_provider(&details, "community_markers", Some("movie"))
        .expect("a provider");
    assert_eq!(selected.segment_types, vec!["intro", "custom"]);
    let response = js(r#"{"segments": [
        {"type": "intro", "start_seconds": 10.0, "end_seconds": 70.0},
        {"type": "custom", "start_seconds": 80.0, "end_seconds": 90.0}
    ]}"#);
    let context = media_segment_provider_certification_context("movie");
    let probe =
        run_media_segment_provider_certification_probe(&selected, &context, Ok(response.clone()));
    assert_eq!(probe.status, "broken");
    assert_eq!(probe.failure_class.as_deref(), Some("unsupported_segment_type"));
    assert_eq!(probe.segment_count, 2);
    assert!(probe.segment_type_counts.is_empty());
    let found = marketplace_segment_provider_response_to_candidates(
        "community_markers",
        &selected,
        &movie(),
        &response,
    );
    let types: Vec<&str> = found.iter().map(|c| c.segment_type.as_str()).collect();
    assert_eq!(types, vec!["intro"]);

    let listed = js(r#"{"segments": [{"type": "custom", "start_sec": 1, "end_sec": 60}]}"#);
    assert!(theintrodb_response_to_candidates(&movie(), &listed).is_empty());
    let named = js(r#"{"intro": {"type": "custom", "start_sec": 1, "end_sec": 60}}"#);
    let found = theintrodb_response_to_candidates(&movie(), &named);
    assert_eq!(found.len(), 1);
    assert_eq!(found[0].segment_type, "intro");
}

#[test]
fn a_certified_probe_counts_every_entry_under_its_type() {
    let context = media_segment_provider_certification_context("movie");
    let response = js(r#"{"segments": [
        {"type": "intro", "start_seconds": 10.0, "end_seconds": 70.0},
        {"type": "credits", "start_seconds": 80.0, "end_seconds": 90.0},
        {"type": "op", "start_seconds": 1.0, "end_seconds": 9.0}
    ]}"#);
    let probe = run_media_segment_provider_certification_probe(&markers(), &context, Ok(response));
    assert_eq!(probe.status, "certified");
    assert_eq!(probe.failure_class, None);
    assert_eq!(probe.segment_count, 3);
    assert_eq!(
        probe.segment_type_counts,
        vec![("credits".to_string(), 1), ("intro".to_string(), 2)]
    );
}

#[test]
fn the_first_requests_of_a_minute_go_through() {
    let settings = js(r#"{"rate_limit_per_minute": 3}"#);
    let start: i64 = 1_783_189_815;
    let mut window: Option<RateWindow> = None;
    for (index, wait) in [0, 0, 20, 40, 59, 60].into_iter().enumerate() {
        let (granted, after) = acquire_provider_rate_limit(window, Some(&settings), start + wait);
        assert_eq!(granted, index < 3);
        let after = after.expect("a window");
        assert!(after.requests_in_window <= 3);
        assert_eq!(after.window_started_at, "2026-07-04 18:30:15");
        window = Some(after);
    }
    let (granted, after) = acquire_provider_rate_limit(window, Some(&settings), start + 61);
    assert!(granted);
    assert_eq!(after.expect("a window").requests_in_window, 1);
}
