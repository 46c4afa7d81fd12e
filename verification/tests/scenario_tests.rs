use media_segments::audio::{
    audio_fingerprint_windows_from_value, count_audio_candidate,
    run_local_audio_recurring_detector_for_season, SeasonAudioFingerprintFile,
};
use media_segments::candidate::{
    normalize_candidate_input, select_active_candidates, source_label_for_candidate,
    validate_candidate, ActiveWindow, CandidateRow, CandidateValidation, ResolvedItem, SegmentCandidateInput,
};
use media_segments::consts;
use media_segments::context::ProviderMediaContext;
use media_segments::jobs::{
    normalize_media_segment_job_enqueue_request, MediaSegmentJobEnqueueRequest,
    claim_media_segment_job, count_recovered_job, enqueue_media_segment_job,
    parse_media_segment_job_timestamp, recover_stale_job, timestamp_after_seconds, timestamp_now,
    MediaSegmentJobRecord, StaleMediaSegmentJobRecoverySummary,
};
use media_segments::json::{JsonNumber, JsonValue};
use media_segments::lookup::{
    answered_from_cache, check_response_length, conclude_provider_reply, CachedProviderResponse,
    ProviderReply,
};
use media_segments::preferences::default_playback_preferences;
use media_segments::quantity::Quantity;
use media_segments::responses::provider_response_to_candidates;
use media_segments::runs::{
    finish_job_run, BuiltinProviderRefreshSummary, JobOutcome, LocalAudioDetectorSummary,
    LocalVisualDetectorSummary, MediaSegmentJobRunRecord,
};
use media_segments::settings::{
    marketplace_provider_settings_enabled, merge_segment_provider_settings,
    provider_settings_enabled, provider_settings_for,
};
use media_segments::visual::{
    count_visual_candidate, run_local_visual_credits_detector_for_media_file,
};
use media_segments::worker::{
    begin_worker_iteration, count_candidate, count_enqueue, count_job_run,
    disabled_provider_outcome, end_worker_iteration, new_refresh_summary, next_worker_step, DueWork,
    MediaSegmentProviderEnqueueSummary, MediaSegmentWorkerIterationSummary, WorkerStep,
};

fn from_serde(v: &serde_json::Value) -> JsonValue {
    match v {
        serde_json::Value::Null => JsonValue::Null,
        serde_json::Value::Bool(b) => JsonValue::Bool(*b),
        serde_json::Value::Number(n) => {
            if let Some(u) = n.as_u64() {
                JsonValue::Number(JsonNumber::Unsigned(u))
            } else if let Some(i) = n.as_i64() {
                JsonValue::Number(JsonNumber::Negative(i))
            } else {
                let f: f64 = n.as_f64().expect("a number");
                JsonValue::Number(JsonNumber::Fraction((f * 1_000_000.0).round() as i64))
            }
        }
        serde_json::Value::String(s) => JsonValue::Text(s.clone()),
        serde_json::Value::Array(a) => JsonValue::Array(a.iter().map(from_serde).collect()),
        serde_json::Value::Object(o) => {
            JsonValue::Object(o.iter().map(|(k, v)| (k.clone(), from_serde(v))).collect())
        }
    }
}

fn js(text: &str) -> JsonValue {
    let value: serde_json::Value = serde_json::from_str(text).expect("valid JSON");
    from_serde(&value)
}

const SECOND: i64 = 1_000_000;

fn movie_context(imdb_id: Option<&str>, seconds: i64) -> ProviderMediaContext {
    ProviderMediaContext {
        media_file_id: "file-1".to_string(),
        item_type: "movie".to_string(),
        item_id: "movie-1".to_string(),
        imdb_id: imdb_id.map(str::to_string),
        tmdb_id: None,
        tvdb_id: None,
        anilist_id: None,
        mal_id: None,
        season_number: None,
        episode_number: None,
        absolute_episode_number: None,
        duration: Some(seconds * SECOND),
    }
}

fn settings_with(patch: &str, provider_kind: &str) -> Option<JsonValue> {
    let defaults = default_playback_preferences().segment_provider_settings;
    let merged = merge_segment_provider_settings(&defaults, &js(patch)).expect("settings");
    provider_settings_for(&merged, provider_kind)
}

fn audio_settings() -> Option<JsonValue> {
    settings_with(
        r#"{
            "theintrodb": false,
            "aniskip": false,
            "local_audio_recurring": {"enabled": true, "min_repeat_count": 2, "min_season_files": 2}
        }"#,
        consts::PROVIDER_LOCAL_AUDIO_RECURRING,
    )
}

fn visual_settings() -> Option<JsonValue> {
    settings_with(
        r#"{
            "theintrodb": false,
            "aniskip": false,
            "local_visual_recurring": {
                "enabled": true,
                "min_frame_count": 3,
                "min_span_seconds": 20.0,
                "min_start_fraction": 0.60,
                "post_credit_scene_min_frames": 2,
                "post_credit_scene_min_span_seconds": 20.0,
                "frame_hash_step_seconds": 30.0,
                "frame_hash_max_frames": 120
            }
        }"#,
        consts::PROVIDER_LOCAL_VISUAL_RECURRING,
    )
}

/// The candidates of some files, in place of a database.
struct Store {
    duration: i64,
    candidates: Vec<(CandidateRow, CandidateValidation)>,
}

impl Store {
    fn new(seconds: i64) -> Store {
        Store { duration: seconds * SECOND, candidates: Vec::new() }
    }

    fn submit(&mut self, input: SegmentCandidateInput) -> CandidateValidation {
        let row = normalize_candidate_input(input, true, &ResolvedItem::Unlinked).expect("a candidate");
        let validation = validate_candidate(&row, Some(self.duration));
        self.candidates.retain(|(kept, _)| kept.id != row.id);
        self.candidates.push((row, validation.clone()));
        validation
    }

    fn active(&self, media_file_id: &str, segment_type: &str) -> Vec<CandidateRow> {
        let accepted = self
            .candidates
            .iter()
            .filter(|(row, validation)| {
                row.media_file_id == media_file_id
                    && row.segment_type == segment_type
                    && validation.state == "accepted"
            })
            .map(|(row, _)| row.clone())
            .collect();
        let locked: Vec<ActiveWindow> = Vec::new();
        select_active_candidates(accepted, &locked)
    }

    fn all_active(&self, media_file_id: &str) -> Vec<CandidateRow> {
        ["intro", "recap", "preview", "credits", "outro"]
            .iter()
            .flat_map(|kind| self.active(media_file_id, kind))
            .collect()
    }
}

fn seconds(quantity: &Quantity) -> f64 {
    match quantity {
        Quantity::Micros(n) => *n as f64 / 1_000_000.0,
        _ => panic!("a time that is not finite"),
    }
}

fn run_audio(store: &mut Store, fingerprints: &[&str]) -> LocalAudioDetectorSummary {
    let files: Vec<SeasonAudioFingerprintFile> = fingerprints
        .iter()
        .enumerate()
        .map(|(index, text)| SeasonAudioFingerprintFile {
            windows: audio_fingerprint_windows_from_value(
                &format!("file-{index}"),
                &format!("episode-{index}"),
                Some(1_500 * SECOND),
                &js(text),
            ),
        })
        .collect();
    let (mut summary, inputs) =
        run_local_audio_recurring_detector_for_season("season-1", audio_settings().as_ref(), &files);
    for input in inputs {
        let validation = store.submit(input);
        count_audio_candidate(&mut summary, validation.state);
    }
    summary
}

fn run_visual(store: &mut Store, length: i64, payload: &str) -> LocalVisualDetectorSummary {
    let payload = js(payload);
    let (mut summary, inputs) = run_local_visual_credits_detector_for_media_file(
        "file-1",
        visual_settings().as_ref(),
        Some(&movie_context(None, length)),
        Some(&payload),
    );
    for input in inputs {
        let validation = store.submit(input);
        count_visual_candidate(&mut summary, validation.state, validation.reason);
    }
    summary.active_segments = store.all_active("file-1").len();
    summary
}

fn check_audio_case(expected: Option<&str>, fingerprints: &[&str]) {
    let mut store = Store::new(1_500);
    let summary = run_audio(&mut store, fingerprints);
    let mut active: Vec<CandidateRow> = Vec::new();
    for index in 0..fingerprints.len() {
        active.extend(store.all_active(&format!("file-{index}")));
    }
    match expected {
        Some(kind) => {
            assert_eq!(active.len(), fingerprints.len());
            assert_eq!(summary.candidates_submitted, fingerprints.len());
            for segment in &active {
                assert_eq!(segment.segment_type, kind);
                assert!(segment.confidence >= consts::LOCAL_AUDIO_DETECTOR_MIN_CONFIDENCE);
            }
        }
        None => {
            assert!(active.is_empty());
            assert_eq!(summary.candidates_submitted, 0);
        }
    }
}

fn check_visual_case(length: i64, expected: &[(f64, f64)], reason: Option<&str>, frames: &str) {
    let mut store = Store::new(length);
    let summary = run_visual(
        &mut store,
        length,
        &format!(r#"{{"version": "midm-synthetic-visual-corpus-v1", "frames": {frames}}}"#),
    );
    let active = store.all_active("file-1");
    assert_eq!(active.len(), expected.len());
    assert_eq!(summary.candidates_submitted, expected.len());
    for (segment, (start, end)) in active.iter().zip(expected) {
        assert_eq!(segment.segment_type, "credits");
        assert!((seconds(&segment.start) - start).abs() <= 1.0);
        assert!((seconds(&segment.end) - end).abs() <= 1.0);
        assert!(segment.confidence >= consts::LOCAL_VISUAL_CREDITS_MIN_CONFIDENCE);
    }
    if expected.is_empty() {
        assert_eq!(summary.reason.as_deref(), reason);
    }
}

#[test]
fn midm_synthetic_detector_corpus_meets_release_quality_floor() {
    check_audio_case(
        Some("intro"),
        &[
            r#"{"windows": [
                {"start_seconds": 30.0, "end_seconds": 90.0, "hash": "corpus-opening-a"},
                {"start_seconds": 430.0, "end_seconds": 490.0, "hash": "corpus-unique-1"}
            ]}"#,
            r#"{"windows": [
                {"start_seconds": 31.0, "end_seconds": 91.0, "hash": "corpus-opening-a"},
                {"start_seconds": 510.0, "end_seconds": 570.0, "hash": "corpus-unique-2"}
            ]}"#,
            r#"{"windows": [
                {"start_seconds": 29.5, "end_seconds": 89.5, "hash": "corpus-opening-a"},
                {"start_seconds": 610.0, "end_seconds": 670.0, "hash": "corpus-unique-3"}
            ]}"#,
        ],
    );
    check_audio_case(
        Some("outro"),
        &[
            r#"{"windows": [{"start_seconds": 1325.0, "end_seconds": 1390.0, "hash": "corpus-ending-a"}]}"#,
            r#"{"windows": [{"start_seconds": 1330.0, "end_seconds": 1395.0, "hash": "corpus-ending-a"}]}"#,
            r#"{"windows": [{"start_seconds": 1320.0, "end_seconds": 1385.0, "hash": "corpus-ending-a"}]}"#,
        ],
    );
    check_audio_case(
        None,
        &[
            r#"{"windows": [{"start_seconds": 610.0, "end_seconds": 670.0, "hash": "corpus-midroll-a"}]}"#,
            r#"{"windows": [{"start_seconds": 612.0, "end_seconds": 672.0, "hash": "corpus-midroll-a"}]}"#,
            r#"{"windows": [{"start_seconds": 614.0, "end_seconds": 674.0, "hash": "corpus-midroll-a"}]}"#,
        ],
    );
    check_audio_case(
        None,
        &[
            r#"{"windows": [{"start_seconds": 30.0, "end_seconds": 42.0, "hash": "corpus-short-a"}]}"#,
            r#"{"windows": [{"start_seconds": 31.0, "end_seconds": 43.0, "hash": "corpus-short-a"}]}"#,
            r#"{"windows": [{"start_seconds": 29.0, "end_seconds": 41.0, "hash": "corpus-short-a"}]}"#,
        ],
    );
    check_audio_case(
        None,
        &[
            r#"{"windows": [{"start_seconds": 20.0, "end_seconds": 260.0, "hash": "corpus-overlong-opening"}]}"#,
            r#"{"windows": [{"start_seconds": 22.0, "end_seconds": 262.0, "hash": "corpus-overlong-opening"}]}"#,
            r#"{"windows": [{"start_seconds": 18.0, "end_seconds": 258.0, "hash": "corpus-overlong-opening"}]}"#,
        ],
    );
    check_visual_case(
        1_800,
        &[(1_660.0, 1_800.0)],
        None,
        r#"[
            {"time_seconds": 900.0, "black_ratio": 0.95, "text_ratio": 0.02},
            {"time_seconds": 1660.0, "black_ratio": 0.91, "text_ratio": 0.16},
            {"time_seconds": 1682.0, "black_ratio": 0.93, "text_ratio": 0.22},
            {"time_seconds": 1704.0, "black_ratio": 0.88, "text_ratio": 0.18},
            {"time_seconds": 1730.0, "black_ratio": 0.92, "text_ratio": 0.20}
        ]"#,
    );
    check_visual_case(
        2_400,
        &[(1_800.0, 1_890.0), (2_220.0, 2_400.0)],
        None,
        r#"[
            {"time_seconds": 1800.0, "black_ratio": 0.90, "text_ratio": 0.16},
            {"time_seconds": 1830.0, "black_ratio": 0.92, "text_ratio": 0.20},
            {"time_seconds": 1860.0, "black_ratio": 0.91, "text_ratio": 0.18},
            {"time_seconds": 1890.0, "black_ratio": 0.12, "text_ratio": 0.01},
            {"time_seconds": 1920.0, "black_ratio": 0.14, "text_ratio": 0.01},
            {"time_seconds": 1950.0, "black_ratio": 0.16, "text_ratio": 0.02},
            {"time_seconds": 2220.0, "black_ratio": 0.93, "text_ratio": 0.22},
            {"time_seconds": 2250.0, "black_ratio": 0.94, "text_ratio": 0.21},
            {"time_seconds": 2280.0, "black_ratio": 0.92, "text_ratio": 0.19}
        ]"#,
    );
    check_visual_case(
        1_800,
        &[],
        Some("no_sustained_credits_run"),
        r#"[
            {"time_seconds": 600.0, "black_ratio": 0.94, "text_ratio": 0.24},
            {"time_seconds": 625.0, "black_ratio": 0.95, "text_ratio": 0.25},
            {"time_seconds": 650.0, "black_ratio": 0.93, "text_ratio": 0.23},
            {"time_seconds": 1700.0, "black_ratio": 0.92, "text_ratio": 0.18}
        ]"#,
    );
    check_visual_case(
        1_800,
        &[],
        Some("no_sustained_credits_run"),
        r#"[{"time_seconds": 1720.0, "black_ratio": 0.94, "text_ratio": 0.21}]"#,
    );
}

fn refresh(store: &mut Store, imdb_id: &str, response: &str) -> BuiltinProviderRefreshSummary {
    let kind = consts::PROVIDER_THEINTRODB;
    let context = movie_context(Some(imdb_id), 1_800);
    let mut summary = new_refresh_summary(&context.media_file_id);
    let (lookup, _) =
        conclude_provider_reply(kind, "https://provider.test", None, None, ProviderReply::Response(js(response)));
    let mut outcome = lookup.outcome;
    let candidates =
        provider_response_to_candidates(kind, &context, &lookup.response.expect("a response"));
    outcome.candidate_count = candidates.len();
    for candidate in candidates {
        let validation = store.submit(candidate);
        count_candidate(&mut summary, &mut outcome, validation.state);
    }
    summary.providers.push(outcome);
    summary.active_segments = store.all_active(&context.media_file_id).len();
    summary
}

#[test]
fn theintrodb_refresh_rejects_duration_mismatch_without_activation() {
    let mut store = Store::new(1_800);
    let summary = refresh(
        &mut store,
        "tt2223334",
        r#"{"segments": [{
            "id": "bad-duration-intro",
            "type": "intro",
            "start_sec": 20,
            "end_sec": 1850,
            "confidence": 0.99
        }]}"#,
    );
    assert_eq!(summary.candidates_submitted, 1);
    assert_eq!(summary.candidates_accepted, 0);
    assert_eq!(summary.candidates_rejected, 1);
    assert_eq!(summary.active_segments, 0);
    let provider = &summary.providers[0];
    assert_eq!(provider.provider_kind, consts::PROVIDER_THEINTRODB);
    assert_eq!(provider.status, "ok");
    assert_eq!(provider.candidate_count, 1);
    assert_eq!(provider.accepted_count, 0);
    assert_eq!(provider.rejected_count, 1);
    assert_eq!(store.candidates.len(), 1);
    assert_eq!(store.candidates[0].0.provider_kind, consts::PROVIDER_THEINTRODB);
    assert_eq!(store.candidates[0].1.state, "rejected");
    assert_eq!(store.candidates[0].1.reason.as_deref(), Some("outside_media_duration"));
}

fn seconds_now() -> i64 {
    parse_media_segment_job_timestamp(&timestamp_now()).expect("a time").seconds
}

fn queue(job_type: &str, scope_type: &str, provider_kind: &str, attempts: i64) -> MediaSegmentJobRecord {
    enqueue_media_segment_job(
        None,
        job_type,
        scope_type,
        "scope-1",
        provider_kind,
        10,
        attempts,
        &timestamp_now(),
    )
}

/// A job that is asked for by the name of an extension.
fn request(provider_kind: &str, attempts: i64) -> MediaSegmentJobRecord {
    let asked = normalize_media_segment_job_enqueue_request(MediaSegmentJobEnqueueRequest {
        job_type: "provider_refresh".to_string(),
        scope_type: "media_file".to_string(),
        scope_id: "scope-1".to_string(),
        provider_kind: provider_kind.to_string(),
        priority: Some(10),
    })
    .expect("a request");
    queue(&asked.job_type, &asked.scope_type, &asked.provider_kind, attempts)
}

fn claim(job: MediaSegmentJobRecord, worker: &str) -> MediaSegmentJobRecord {
    claim_media_segment_job(job, worker, true, &timestamp_now())
        .expect("a worker")
        .expect("a job")
}

fn error_text(job: &MediaSegmentJobRecord, key: &str) -> Option<String> {
    match job.error.as_ref().and_then(|error| error.get(key)) {
        Some(JsonValue::Text(text)) => Some(text.clone()),
        _ => None,
    }
}

#[test]
fn provider_refresh_job_claims_runs_and_finishes() {
    let mut store = Store::new(1_800);
    let queued = queue(
        consts::MEDIA_SEGMENT_JOB_PROVIDER_REFRESH,
        consts::MEDIA_SEGMENT_JOB_SCOPE_MEDIA_FILE,
        consts::PROVIDER_THEINTRODB,
        consts::PROVIDER_JOB_MAX_ATTEMPTS,
    );
    assert_eq!(queued.status, "queued");
    assert_eq!(queued.attempts, 0);
    let claimed = claim(queued, "midm-test-worker");
    let summary = refresh(
        &mut store,
        "tt7654321",
        r#"{"segments": [{
            "id": "intro-job-1",
            "type": "intro",
            "start_sec": 12,
            "end_sec": 72,
            "confidence": 0.96
        }]}"#,
    );
    let now = seconds_now();
    let run = finish_job_run(
        &claimed,
        claimed.clone(),
        JobOutcome::ProviderRefresh(Ok(summary)),
        now,
    );
    assert_eq!(run.job.status, "succeeded");
    assert_eq!(run.job.attempts, 1);
    assert!(run.job.locked_by.is_none());
    let summary = run.summary.expect("provider job should return summary");
    assert_eq!(summary.candidates_submitted, 1);
    assert_eq!(summary.candidates_accepted, 1);
    let active = store.all_active("file-1");
    assert_eq!(active.len(), 1);
    assert_eq!(active[0].segment_type, "intro");
    let again = claim_media_segment_job(run.job, "midm-test-worker", true, &timestamp_now()).expect("a worker");
    assert!(again.is_none());
}

#[test]
fn a_disabled_builtin_provider_is_skipped() {
    let settings = settings_with(
        r#"{"theintrodb": {"enabled": false, "base_url": "https://provider.test", "cache_ttl_seconds": 3600}}"#,
        consts::PROVIDER_THEINTRODB,
    );
    assert!(!provider_settings_enabled(settings.as_ref()));
    let outcome = disabled_provider_outcome(consts::PROVIDER_THEINTRODB);
    assert!(!outcome.enabled);
    assert_eq!(outcome.status, "skipped");
    assert_eq!(outcome.reason.as_deref(), Some("provider_disabled"));
    assert_eq!(outcome.candidate_count, 0);
}

#[test]
fn a_job_of_a_disabled_marketplace_provider_is_skipped() {
    let settings = settings_with(
        r#"{"disabled_markers": {"enabled": false, "kind": "extension", "label": "Disabled Markers"}}"#,
        "disabled_markers",
    );
    assert!(!marketplace_provider_settings_enabled(settings.as_ref()));
    let mut summary = new_refresh_summary("file-1");
    let claimed = claim(
        request("disabled-markers", consts::PROVIDER_JOB_MAX_ATTEMPTS),
        "midm-marketplace-disabled",
    );
    summary.providers.push(disabled_provider_outcome(&claimed.provider_kind));
    let now = seconds_now();
    let run = finish_job_run(
        &claimed,
        claimed.clone(),
        JobOutcome::ProviderRefresh(Ok(summary)),
        now,
    );
    assert_eq!(run.job.status, "skipped");
    let summary = run.summary.expect("disabled provider should produce summary");
    assert_eq!(summary.candidates_submitted, 0);
    assert_eq!(summary.active_segments, 0);
    let provider = &summary.providers[0];
    assert_eq!(provider.provider_kind, "disabled_markers");
    assert!(!provider.enabled);
    assert_eq!(provider.status, "skipped");
    assert_eq!(provider.reason.as_deref(), Some("provider_disabled"));
}

#[test]
fn an_oversized_reply_fails_the_job() {
    let refused = check_response_length(consts::MEDIA_SEGMENT_PROVIDER_RESPONSE_MAX_BYTES + 1)
        .expect_err("too long");
    let claimed = claim(
        request("oversized-markers", 1),
        "midm-marketplace-oversized",
    );
    let now = seconds_now();
    let run = finish_job_run(
        &claimed,
        claimed.clone(),
        JobOutcome::ProviderRefresh(Err(refused.message)),
        now,
    );
    assert_eq!(run.job.status, "failed");
    assert!(run.summary.is_none());
    assert_eq!(error_text(&run.job, "reason").as_deref(), Some("provider_refresh_failed"));
    let error = error_text(&run.job, "error").expect("the error");
    assert!(error.contains("media segment provider response exceeds"));
}

#[test]
fn stale_local_audio_detector_job_requeues_and_resumes_successfully() {
    let mut store = Store::new(1_500);
    let mut claimed = claim(
        queue(
            consts::MEDIA_SEGMENT_JOB_LOCAL_DETECTOR,
            consts::MEDIA_SEGMENT_JOB_SCOPE_SEASON,
            consts::PROVIDER_LOCAL_AUDIO_RECURRING,
            consts::PROVIDER_JOB_MAX_ATTEMPTS,
        ),
        "midm-stale-audio-worker",
    );
    assert_eq!(claimed.status, "running");
    assert_eq!(claimed.job_type, consts::MEDIA_SEGMENT_JOB_LOCAL_DETECTOR);
    assert_eq!(claimed.provider_kind, consts::PROVIDER_LOCAL_AUDIO_RECURRING);
    assert_eq!(claimed.attempts, 1);
    let stale = consts::MEDIA_SEGMENT_STALE_RUNNING_JOB_SECONDS;
    claimed.started_at = Some(timestamp_after_seconds(-stale - 60));
    let now = parse_media_segment_job_timestamp(&timestamp_now()).expect("a time");
    let recovered = recover_stale_job(claimed.clone(), now, stale).expect("a stale job");
    let none = StaleMediaSegmentJobRecoverySummary { recovered: 0, requeued: 0, failed: 0 };
    let recovery = count_recovered_job(none, &recovered);
    assert_eq!(recovery.recovered, 1);
    assert_eq!(recovery.requeued, 1);
    assert_eq!(recovered.status, "queued");
    assert_eq!(recovered.attempts, 1);
    assert!(recovered.locked_by.is_none());
    assert_eq!(error_text(&recovered, "reason").as_deref(), Some("stale_running_job"));

    let resumed = claim(recovered, "midm-resumed-audio-worker");
    let summary = run_audio(
        &mut store,
        &[
            r#"{"windows": [{"start_seconds": 30.0, "end_seconds": 90.0, "hash": "restart-opening"}]}"#,
            r#"{"windows": [{"start_seconds": 31.0, "end_seconds": 91.0, "hash": "restart-opening"}]}"#,
        ],
    );
    let now = seconds_now();
    let run = finish_job_run(
        &resumed,
        resumed.clone(),
        JobOutcome::AudioDetector(Ok(summary)),
        now,
    );
    assert_eq!(run.job.id, claimed.id);
    assert_eq!(run.job.status, "succeeded");
    assert_eq!(run.job.attempts, 2);
    assert!(run.job.locked_by.is_none());
    assert!(run.job.finished_at.is_some());
    let summary = run.local_audio_summary.expect("resumed audio detector job should return summary");
    assert_eq!(summary.candidates_submitted, 2);
    assert_eq!(summary.candidates_accepted, 2);
    for file in ["file-0", "file-1"] {
        let active = store.all_active(file);
        assert_eq!(active.len(), 1);
        assert_eq!(active[0].segment_type, "intro");
    }
}

fn due(builtin: usize, audio_detector: usize, visual_detector: usize) -> DueWork {
    let found = |files: usize| {
        let mut summary = MediaSegmentProviderEnqueueSummary::default();
        if files > 0 {
            summary.providers_seen = 1;
            summary.files_seen = files;
            for _ in 0..files {
                count_enqueue(&mut summary, true);
            }
        }
        summary
    };
    DueWork {
        builtin: found(builtin),
        marketplace: found(0),
        audio_fingerprint: found(0),
        audio_detector: found(audio_detector),
        frame_hash: found(0),
        visual_detector: found(visual_detector),
    }
}

#[test]
fn a_pass_without_time_takes_no_job() {
    let none = StaleMediaSegmentJobRecoverySummary { recovered: 0, requeued: 0, failed: 0 };
    let summary = begin_worker_iteration(none, &due(0, 1, 1), 0);
    let step = next_worker_step(&summary, 10, 0, false);
    assert_eq!(step, WorkerStep::BudgetSpent);
    let summary = end_worker_iteration(summary, Some(step), 0);
    assert_eq!(summary.runtime_budget_seconds, 0);
    assert!(summary.runtime_budget_exhausted);
    assert_eq!(summary.jobs_run, 0);
    assert!(summary.enqueue.jobs_queued >= 2);
}

#[test]
fn a_pass_told_to_stop_takes_no_job() {
    let none = StaleMediaSegmentJobRecoverySummary { recovered: 0, requeued: 0, failed: 0 };
    let summary = begin_worker_iteration(none, &due(1, 0, 0), 60);
    assert_eq!(next_worker_step(&summary, 1, 0, false), WorkerStep::Run);
    assert_eq!(next_worker_step(&summary, 1, 0, true), WorkerStep::BudgetSpent);
}

#[test]
fn a_pass_counts_the_jobs_it_ran() {
    let budget = consts::MEDIA_SEGMENT_WORKER_MAX_RUNTIME_SECONDS;
    let none = StaleMediaSegmentJobRecoverySummary { recovered: 0, requeued: 0, failed: 0 };
    let mut summary = begin_worker_iteration(none, &due(1, 0, 0), budget);
    assert_eq!(next_worker_step(&summary, 2, 0, false), WorkerStep::Run);
    count_job_run(&mut summary, "succeeded");
    let summary = end_worker_iteration(summary, None, 0);
    assert_eq!(summary.jobs_run, 1);
    assert_eq!(summary.jobs_succeeded, 1);
    assert!(!summary.runtime_budget_exhausted);
}

#[test]
fn a_fresh_reply_adds_no_second_candidate() {
    let mut store = Store::new(1_800);
    let response =
        r#"{"segments": [{"id": "intro-worker-1", "type": "intro", "start_sec": 15, "end_sec": 75}]}"#;
    assert_eq!(refresh(&mut store, "tt2468101", response).active_segments, 1);
    let answer = answered_from_cache(
        false,
        consts::PROVIDER_THEINTRODB,
        Some(CachedProviderResponse {
            status: "ok".to_string(),
            response: Some(js(response)),
            reason: None,
        }),
    )
    .expect("a fresh answer");
    assert!(answer.outcome.cache_hit);
    assert_eq!(refresh(&mut store, "tt2468101", response).active_segments, 1);
    assert_eq!(store.candidates.len(), 1);
    assert_eq!(store.all_active("file-1")[0].segment_type, "intro");
}

fn run_job(job_type: &str, scope_type: &str, provider_kind: &str, outcome: JobOutcome) -> MediaSegmentJobRunRecord {
    let queued = queue(job_type, scope_type, provider_kind, consts::PROVIDER_JOB_MAX_ATTEMPTS);
    assert_eq!(queued.status, "queued");
    let claimed = claim(queued, "midm-test-worker");
    let now = seconds_now();
    finish_job_run(&claimed, claimed.clone(), outcome, now)
}

fn run_audio_job(store: &mut Store, fingerprints: &[&str]) -> MediaSegmentJobRunRecord {
    let summary = run_audio(store, fingerprints);
    run_job(
        consts::MEDIA_SEGMENT_JOB_LOCAL_DETECTOR,
        consts::MEDIA_SEGMENT_JOB_SCOPE_SEASON,
        consts::PROVIDER_LOCAL_AUDIO_RECURRING,
        JobOutcome::AudioDetector(Ok(summary)),
    )
}

fn run_visual_job(store: &mut Store, length: i64, payload: &str) -> MediaSegmentJobRunRecord {
    let summary = run_visual(store, length, payload);
    run_job(
        consts::MEDIA_SEGMENT_JOB_LOCAL_DETECTOR,
        consts::MEDIA_SEGMENT_JOB_SCOPE_MEDIA_FILE,
        consts::PROVIDER_LOCAL_VISUAL_RECURRING,
        JobOutcome::VisualDetector(Ok(summary)),
    )
}

#[test]
fn local_audio_detector_worker_emits_repeated_intro_candidates() {
    let mut store = Store::new(1_500);
    let none = StaleMediaSegmentJobRecoverySummary { recovered: 0, requeued: 0, failed: 0 };
    let mut pass = begin_worker_iteration(
        none,
        &due(0, 1, 0),
        consts::MEDIA_SEGMENT_WORKER_MAX_RUNTIME_SECONDS,
    );
    assert_eq!(pass.enqueue.providers_seen, 1);
    assert_eq!(pass.enqueue.jobs_queued, 1);
    let run = run_audio_job(
        &mut store,
        &[
            r#"{"windows": [
                {"start_seconds": 30.0, "end_seconds": 90.0, "hash": "opening-theme-a"},
                {"start_seconds": 420.0, "end_seconds": 480.0, "hash": "episode-unique-1"}
            ]}"#,
            r#"{"windows": [
                {"start_seconds": 31.0, "end_seconds": 91.0, "hash": "opening-theme-a"},
                {"start_seconds": 500.0, "end_seconds": 560.0, "hash": "episode-unique-2"}
            ]}"#,
            r#"{"windows": [
                {"start_seconds": 29.5, "end_seconds": 89.5, "hash": "opening-theme-a"},
                {"start_seconds": 600.0, "end_seconds": 660.0, "hash": "episode-unique-3"}
            ]}"#,
        ],
    );
    count_job_run(&mut pass, &run.job.status);
    assert_eq!(pass.jobs_run, 1);
    assert_eq!(pass.jobs_succeeded, 1);
    let summary = run.local_audio_summary.expect("a summary");
    assert_eq!(summary.repeated_groups, 1);
    assert_eq!(summary.candidates_accepted, 3);
    for file in ["file-0", "file-1", "file-2"] {
        let active = store.all_active(file);
        assert_eq!(active.len(), 1);
        assert_eq!(active[0].segment_type, "intro");
        assert_eq!(source_label_for_candidate(&active[0]), "Local audio intro");
        assert!(active[0].confidence >= consts::LOCAL_AUDIO_DETECTOR_MIN_CONFIDENCE);
    }
}

#[test]
fn local_audio_detector_ignores_no_match_season() {
    let mut store = Store::new(1_500);
    let run = run_audio_job(
        &mut store,
        &[
            r#"{"windows": [{"start_seconds": 30.0, "end_seconds": 90.0, "hash": "episode-1-opening"}]}"#,
            r#"{"windows": [{"start_seconds": 30.0, "end_seconds": 90.0, "hash": "episode-2-opening"}]}"#,
            r#"{"windows": [{"start_seconds": 30.0, "end_seconds": 90.0, "hash": "episode-3-opening"}]}"#,
        ],
    );
    assert_eq!(run.job.status, "succeeded");
    let summary = run.local_audio_summary.expect("a summary");
    assert_eq!(summary.repeated_groups, 0);
    assert_eq!(summary.candidates_submitted, 0);
    for file in ["file-0", "file-1", "file-2"] {
        assert!(store.all_active(file).is_empty());
    }
}

#[test]
fn local_visual_detector_emits_movie_credits_from_sustained_late_frames() {
    let mut store = Store::new(1_800);
    let run = run_visual_job(
        &mut store,
        1_800,
        r#"{
            "version": "test-visual-v1",
            "frames": [
                {"time_seconds": 900.0, "black_ratio": 0.95, "text_ratio": 0.02},
                {"time_seconds": 1660.0, "black_ratio": 0.91, "text_ratio": 0.16},
                {"time_seconds": 1682.0, "black_ratio": 0.93, "text_ratio": 0.22},
                {"time_seconds": 1704.0, "black_ratio": 0.88, "text_ratio": 0.18},
                {"time_seconds": 1730.0, "black_ratio": 0.92, "text_ratio": 0.20}
            ]
        }"#,
    );
    assert_eq!(run.job.status, "succeeded");
    let summary = run.local_visual_summary.expect("a summary");
    assert_eq!(summary.frames_seen, 5);
    assert_eq!(summary.credits_like_frames, 4);
    assert_eq!(summary.candidates_submitted, 1);
    assert_eq!(summary.candidates_accepted, 1);
    assert_eq!(summary.active_segments, 1);
    let active = store.all_active("file-1");
    assert_eq!(active.len(), 1);
    assert_eq!(active[0].segment_type, "credits");
    assert_eq!(source_label_for_candidate(&active[0]), "Local visual credits");
    assert_eq!(active[0].start, Quantity::Micros(1_660 * SECOND));
    assert_eq!(active[0].end, Quantity::Micros(1_800 * SECOND));
    assert!(active[0].confidence >= consts::LOCAL_VISUAL_CREDITS_MIN_CONFIDENCE);
}

#[test]
fn local_visual_detector_preserves_post_credit_scene_between_credit_runs() {
    let mut store = Store::new(2_400);
    let run = run_visual_job(
        &mut store,
        2_400,
        r#"{
            "version": "test-visual-v1",
            "frames": [
                {"time_seconds": 1800.0, "black_ratio": 0.90, "text_ratio": 0.16},
                {"time_seconds": 1830.0, "black_ratio": 0.92, "text_ratio": 0.20},
                {"time_seconds": 1860.0, "black_ratio": 0.91, "text_ratio": 0.18},
                {"time_seconds": 1890.0, "black_ratio": 0.12, "text_ratio": 0.01},
                {"time_seconds": 1920.0, "black_ratio": 0.14, "text_ratio": 0.01},
                {"time_seconds": 1950.0, "black_ratio": 0.16, "text_ratio": 0.02},
                {"time_seconds": 2220.0, "black_ratio": 0.93, "text_ratio": 0.22},
                {"time_seconds": 2250.0, "black_ratio": 0.94, "text_ratio": 0.21},
                {"time_seconds": 2280.0, "black_ratio": 0.92, "text_ratio": 0.19}
            ]
        }"#,
    );
    assert_eq!(run.job.status, "succeeded");
    let summary = run.local_visual_summary.expect("a summary");
    assert_eq!(summary.credits_like_frames, 6);
    assert_eq!(summary.sustained_runs, 2);
    assert_eq!(summary.candidates_submitted, 2);
    assert_eq!(summary.candidates_accepted, 2);
    assert_eq!(summary.active_segments, 2);
    let active = store.all_active("file-1");
    assert_eq!(active.len(), 2);
    assert_eq!(active[0].segment_type, "credits");
    assert_eq!(active[0].start, Quantity::Micros(1_800 * SECOND));
    assert_eq!(active[0].end, Quantity::Micros(1_890 * SECOND));
    assert_eq!(active[1].segment_type, "credits");
    assert_eq!(active[1].start, Quantity::Micros(2_220 * SECOND));
    assert_eq!(active[1].end, Quantity::Micros(2_400 * SECOND));
}

#[test]
fn local_visual_detector_ignores_midroll_dark_text_without_late_sustain() {
    let mut store = Store::new(1_800);
    let run = run_visual_job(
        &mut store,
        1_800,
        r#"{
            "frames": [
                {"time_seconds": 600.0, "black_ratio": 0.94, "text_ratio": 0.24},
                {"time_seconds": 625.0, "black_ratio": 0.95, "text_ratio": 0.25},
                {"time_seconds": 650.0, "black_ratio": 0.93, "text_ratio": 0.23},
                {"time_seconds": 1700.0, "black_ratio": 0.92, "text_ratio": 0.18}
            ]
        }"#,
    );
    assert_eq!(run.job.status, "succeeded");
    let summary = run.local_visual_summary.expect("a summary");
    assert_eq!(summary.credits_like_frames, 1);
    assert_eq!(summary.candidates_submitted, 0);
    assert_eq!(summary.reason.as_deref(), Some("no_sustained_credits_run"));
    assert!(store.all_active("file-1").is_empty());
}

/// Runs the queued jobs, first come first, until the pass says to stop.
fn run_pass(jobs: &mut Vec<MediaSegmentJobRecord>, limit: usize) -> MediaSegmentWorkerIterationSummary {
    let none = StaleMediaSegmentJobRecoverySummary { recovered: 0, requeued: 0, failed: 0 };
    let mut pass = begin_worker_iteration(
        none,
        &due(0, 0, 0),
        consts::MEDIA_SEGMENT_WORKER_MAX_RUNTIME_SECONDS,
    );
    loop {
        let step = next_worker_step(&pass, limit, 1_000, false);
        if step != WorkerStep::Run {
            return end_worker_iteration(pass, Some(step), 1_000);
        }
        let index = jobs.iter().position(|job| job.status == "queued").expect("a queued job");
        let claimed = claim(jobs[index].clone(), "midm-load-worker");
        let mut store = Store::new(1_800);
        let summary = run_visual(
            &mut store,
            1_800,
            r#"{
                "version": "test-visual-v1",
                "frames": [
                    {"time_seconds": 1500.0, "black_ratio": 0.12, "text_ratio": 0.01},
                    {"time_seconds": 1560.0, "black_ratio": 0.14, "text_ratio": 0.02},
                    {"time_seconds": 1620.0, "black_ratio": 0.13, "text_ratio": 0.01}
                ]
            }"#,
        );
        let now = seconds_now();
        let run = finish_job_run(
            &claimed,
            claimed.clone(),
            JobOutcome::VisualDetector(Ok(summary)),
            now,
        );
        count_job_run(&mut pass, &run.job.status);
        jobs[index] = run.job;
    }
}

#[test]
fn media_segment_worker_load_is_bounded_by_run_batch_limit() {
    let mut jobs: Vec<MediaSegmentJobRecord> = (0..12)
        .map(|index| {
            enqueue_media_segment_job(
                None,
                consts::MEDIA_SEGMENT_JOB_LOCAL_DETECTOR,
                consts::MEDIA_SEGMENT_JOB_SCOPE_MEDIA_FILE,
                &format!("file-{index}"),
                consts::PROVIDER_LOCAL_VISUAL_RECURRING,
                10 + index,
                consts::PROVIDER_JOB_MAX_ATTEMPTS,
                &timestamp_now(),
            )
        })
        .collect();
    let count = |jobs: &Vec<MediaSegmentJobRecord>, status: &str| {
        jobs.iter().filter(|job| job.status == status).count()
    };
    assert_eq!(count(&jobs, "queued"), 12);

    let first = run_pass(&mut jobs, 4);
    assert_eq!(first.enqueue.jobs_queued, 0);
    assert_eq!(first.jobs_run, 4);
    assert_eq!(first.jobs_succeeded, 4);
    assert_eq!(first.jobs_failed, 0);
    assert!(!first.runtime_budget_exhausted);
    assert_eq!(count(&jobs, "succeeded"), 4);
    assert_eq!(count(&jobs, "queued"), 8);

    let second = run_pass(&mut jobs, 4);
    assert_eq!(second.jobs_run, 4);
    assert_eq!(second.jobs_succeeded, 4);
    assert_eq!(count(&jobs, "queued"), 4);
    assert_eq!(count(&jobs, "running"), 0);
}
