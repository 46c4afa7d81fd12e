use media_segments::consts;
use media_segments::jobs::{
    cancel_media_segment_job, claim_media_segment_job, count_recovered_job, enqueue_media_segment_job,
    finish_media_segment_job, media_segment_job_id, normalize_media_segment_job_enqueue_request,
    parse_media_segment_job_timestamp, plan_media_segment_job_request, recover_job_started_at,
    recover_stale_job, retry_delay_seconds, retry_media_segment_job, retry_or_fail_media_segment_job, stale_after,
    timestamp_after, timestamp_after_seconds, timestamp_now, JobKind, MediaSegmentJobEnqueueRequest,
    MediaSegmentJobRecord, StaleMediaSegmentJobRecoverySummary,
};
use media_segments::analysis::distinct_media_file_ids;
use media_segments::filters::normalize_uuid_text;
use media_segments::json::{JsonNumber, JsonValue};
use media_segments::metrics::{
    keep_lasting, record_media_segment_candidate, record_media_segment_job_duration,
    record_media_segment_job_status, reset_media_segment_job_backlog,
    update_active_media_segment_metrics, update_media_segment_job_backlog_metrics, ActiveCount,
};
use media_segments::outside::{FIRST_SECOND, Instant, LAST_SECOND};
use media_segments::runs::{finish_job_run, JobOutcome};
use media_segments::worker::{
    begin_worker_iteration, count_candidate, count_due, count_enqueue, disabled_provider_outcome,
    due_batch_limit, due_episode_limit, end_worker_iteration, new_refresh_summary, next_worker_step, DueWork,
    MediaSegmentProviderEnqueueSummary, WorkerStep,
};

fn from_serde(v: &serde_json::Value) -> JsonValue {
    match v {
        serde_json::Value::Null => JsonValue::Null,
        serde_json::Value::Bool(b) => JsonValue::Bool(*b),
        serde_json::Value::Number(n) => {
            if let Some(u) = n.as_u64() {
                JsonValue::Number(JsonNumber::Unsigned(u))
            } else if let Some(i) = n.as_i64() {
                JsonValue::Number(JsonNumber::Negative(i))
            } else {
                let f: f64 = n.as_f64().expect("a number");
                JsonValue::Number(JsonNumber::Fraction((f * 1_000_000.0).round() as i64))
            }
        }
        serde_json::Value::String(s) => JsonValue::Text(s.clone()),
        serde_json::Value::Array(a) => JsonValue::Array(a.iter().map(from_serde).collect()),
        serde_json::Value::Object(o) => {
            JsonValue::Object(o.iter().map(|(k, v)| (k.clone(), from_serde(v))).collect())
        }
    }
}

fn js(text: &str) -> JsonValue {
    let value: serde_json::Value = serde_json::from_str(text).expect("valid JSON");
    from_serde(&value)
}

const NOW: &str = "2026-07-04 18:30:15";
const LATER: &str = "2026-07-04 18:35:15";

/// The second that `NOW` stands for.
const NOW_SECOND: i64 = 1_783_189_815;

fn queued(provider_kind: &str) -> MediaSegmentJobRecord {
    enqueue_media_segment_job(
        None,
        consts::MEDIA_SEGMENT_JOB_PROVIDER_REFRESH,
        consts::MEDIA_SEGMENT_JOB_SCOPE_MEDIA_FILE,
        "file-1",
        provider_kind,
        10,
        consts::PROVIDER_JOB_MAX_ATTEMPTS,
        NOW,
    )
}

fn claimed() -> MediaSegmentJobRecord {
    claim_media_segment_job(queued("theintrodb"), "worker", true, NOW)
        .expect("a valid worker")
        .expect("a due job")
}

fn claimed_frame_hash() -> MediaSegmentJobRecord {
    let job = enqueue_media_segment_job(
        None,
        consts::MEDIA_SEGMENT_JOB_VIDEO_FRAME_HASH,
        consts::MEDIA_SEGMENT_JOB_SCOPE_MEDIA_FILE,
        "file-1",
        consts::PROVIDER_LOCAL_VISUAL_RECURRING,
        10,
        consts::PROVIDER_JOB_MAX_ATTEMPTS,
        NOW,
    );
    claim_media_segment_job(job, "midm-stale-worker", true, NOW)
        .expect("a valid worker")
        .expect("a due job")
}

fn error_text(job: &MediaSegmentJobRecord, key: &str) -> Option<String> {
    let error = job.error.as_ref()?;
    error.get(key)?.as_text().cloned()
}

fn no_work() -> DueWork {
    let none = || MediaSegmentProviderEnqueueSummary {
        providers_seen: 0,
        files_seen: 0,
        jobs_queued: 0,
        jobs_failed: 0,
    };
    DueWork {
        builtin: none(),
        marketplace: none(),
        audio_fingerprint: none(),
        audio_detector: none(),
        frame_hash: none(),
        visual_detector: none(),
    }
}

fn no_recovery() -> StaleMediaSegmentJobRecoverySummary {
    StaleMediaSegmentJobRecoverySummary { recovered: 0, requeued: 0, failed: 0 }
}

#[test]
fn parses_media_segment_job_timestamps() {
    assert!(parse_media_segment_job_timestamp("2026-07-04 18:30:15").is_some());
    assert!(parse_media_segment_job_timestamp("2026-07-04T18:30:15Z").is_some());
    assert!(parse_media_segment_job_timestamp("").is_none());
}

#[test]
fn timestamps_stand_for_the_same_moment_in_every_form() {
    let expected = Some(Instant { seconds: 1_783_189_815, nanos: 0 });
    assert_eq!(parse_media_segment_job_timestamp(" 2026-07-04 18:30:15 "), expected);
    assert_eq!(parse_media_segment_job_timestamp("2026-07-04T18:30:15Z"), expected);
    assert_eq!(parse_media_segment_job_timestamp("2026-07-04 20:30:15+02:00"), expected);
    assert_eq!(parse_media_segment_job_timestamp("2026-07-04 20:30:15+0200"), expected);
    assert_eq!(parse_media_segment_job_timestamp("yesterday"), None);
}

#[test]
fn the_time_now_has_the_stored_shape() {
    let now = timestamp_now();
    assert_eq!(now.len(), 19);
    let read = parse_media_segment_job_timestamp(&now).expect("a time");
    let later = parse_media_segment_job_timestamp(&timestamp_after_seconds(3_600)).expect("a time");
    assert!(later.seconds >= read.seconds + 3_600);
    assert!(later.seconds <= read.seconds + 3_660);
    let earlier = parse_media_segment_job_timestamp(&timestamp_after_seconds(-3_600)).expect("a time");
    assert!(earlier.seconds <= read.seconds - 3_600 + 60);
    assert!(earlier.seconds >= read.seconds - 3_600);
    assert_eq!(timestamp_after_seconds(LAST_SECOND), "+262142-12-31 23:59:59");
}

#[test]
fn a_time_is_written_and_read_back() {
    for (now, seconds, text) in [
        (0, 0, "1970-01-01 00:00:00"),
        (NOW_SECOND, 300, "2026-07-04 18:35:15"),
        (NOW_SECOND, -15, "2026-07-04 18:30:00"),
        (951_782_400, 86_399, "2000-02-29 23:59:59"),
        (0, -1, "1969-12-31 23:59:59"),
        (253_402_300_799, 1, "+10000-01-01 00:00:00"),
        (-62_167_219_200, 0, "0000-01-01 00:00:00"),
        (-62_167_219_200, -1, "-0001-12-31 23:59:59"),
        (LAST_SECOND, 0, "+262142-12-31 23:59:59"),
        (FIRST_SECOND, 0, "-262143-01-01 00:00:00"),
    ] {
        let written = timestamp_after(now, seconds);
        assert_eq!(written, text);
        assert_eq!(
            parse_media_segment_job_timestamp(&written),
            Some(Instant { seconds: now + seconds, nanos: 0 })
        );
    }
}

#[test]
fn written_times_are_in_the_order_of_time() {
    let times: [i64; 8] = [
        -62_167_219_200,
        -1,
        0,
        951_782_399,
        951_782_400,
        NOW_SECOND,
        NOW_SECOND + 1,
        253_402_300_799,
    ];
    for pair in times.windows(2) {
        assert!(timestamp_after(pair[0], 0) < timestamp_after(pair[1], 0));
    }
}

#[test]
fn due_files_are_counted_by_provider() {
    let mut summary = MediaSegmentProviderEnqueueSummary::default();
    count_due(&mut summary, 3);
    count_due(&mut summary, 2);
    assert_eq!(summary.providers_seen, 2);
    assert_eq!(summary.files_seen, 5);
    assert_eq!(summary.jobs_queued, 0);
}

#[test]
fn queued_jobs_have_a_stable_id() {
    let job = queued("theintrodb");
    assert_eq!(job.status, "queued");
    assert_eq!(job.attempts, 0);
    assert_eq!(
        job.id,
        media_segment_job_id("provider_refresh", "media_file", "file-1", "theintrodb")
    );
    assert_ne!(job.id, media_segment_job_id("provider_refresh", "media_file", "file-1", "aniskip"));
    assert_eq!(normalize_uuid_text(&job.id, "job_id").expect("an id"), job.id);
}

#[test]
fn queueing_again_does_not_disturb_a_run() {
    let running = claimed();
    let again = enqueue_media_segment_job(
        Some(running),
        "provider_refresh",
        "media_file",
        "file-1",
        "theintrodb",
        50,
        5,
        LATER,
    );
    assert_eq!(again.status, "running");
    assert_eq!(again.attempts, 1);
    assert_eq!(again.locked_by.as_deref(), Some("worker"));
}

#[test]
fn a_job_is_claimed_only_when_it_is_due() {
    let job = claim_media_segment_job(queued("theintrodb"), "worker", false, NOW).expect("a valid worker");
    assert!(job.is_none());
    assert!(claim_media_segment_job(queued("theintrodb"), "  ", true, NOW).is_err());
    let job = claimed();
    assert_eq!(job.status, "running");
    assert_eq!(job.attempts, 1);
    assert_eq!(job.started_at.as_deref(), Some(NOW));
}

#[test]
fn cancelled_media_segment_job_is_not_overwritten_by_late_worker_finish() {
    assert_eq!(queued("theintrodb").status, "queued");
    assert_eq!(claimed().status, "running");
    assert_eq!(claimed().attempts, 1);
    let cancelled = cancel_media_segment_job(claimed(), Some("operator stopped detector"), NOW)
        .expect("cancelled");
    assert_eq!(cancelled.status, "cancelled");
    assert!(cancelled.locked_by.is_none());
    let late = finish_media_segment_job(cancelled, "succeeded", None, LATER).expect("finished");
    assert_eq!(late.status, "cancelled");
    assert!(late.locked_by.is_none());
    assert_eq!(error_text(&late, "reason").as_deref(), Some("admin_cancelled"));
    assert_eq!(error_text(&late, "previous_status").as_deref(), Some("running"));
}

#[test]
fn cancelled_media_segment_job_is_not_requeued_by_late_worker_retry() {
    let job = claimed_frame_hash();
    assert_eq!(job.status, "running");
    assert_eq!(job.provider_kind, consts::PROVIDER_LOCAL_VISUAL_RECURRING);
    let cancelled = cancel_media_segment_job(job, Some("operator stopped detector"), NOW)
        .expect("cancelled");
    let late = retry_or_fail_media_segment_job(
        cancelled,
        js(r#"{"reason": "late_worker_error", "error": "worker observed failure after cancellation"}"#),
        NOW_SECOND + 300,
    );
    assert_eq!(late.status, "cancelled");
    assert_eq!(late.attempts, 1);
    assert!(late.next_attempt_at.is_none());
    assert!(late.locked_by.is_none());
    assert_eq!(error_text(&late, "reason").as_deref(), Some("admin_cancelled"));
}

#[test]
fn a_finished_job_cannot_be_cancelled() {
    let done = finish_media_segment_job(claimed(), "succeeded", None, LATER).expect("finished");
    assert_eq!(done.status, "succeeded");
    assert_eq!(done.finished_at.as_deref(), Some(LATER));
    assert!(cancel_media_segment_job(done, None, LATER).is_err());
}

#[test]
fn a_failed_job_can_be_tried_again() {
    let failed = finish_media_segment_job(claimed(), "failed", None, LATER).expect("finished");
    let again = retry_media_segment_job(failed, Some("fixed"), LATER).expect("queued again");
    assert_eq!(again.status, "queued");
    assert!(retry_media_segment_job(claimed(), None, LATER).is_err());
}

#[test]
fn finishing_needs_a_final_status() {
    assert_eq!(
        finish_media_segment_job(claimed(), "running", None, LATER).expect_err("refused").message,
        "invalid terminal media segment job status"
    );
}

#[test]
fn a_job_fails_for_good_after_its_last_attempt() {
    let mut job = claimed();
    let note = r#"{"reason": "provider_refresh_failed"}"#;
    let again = retry_or_fail_media_segment_job(claimed(), js(note), NOW_SECOND);
    assert_eq!(again.status, "queued");
    assert_eq!(again.next_attempt_at.as_deref(), Some(LATER));
    job.attempts = job.max_attempts;
    let mut second = claimed();
    second.attempts = 2;
    let second = retry_or_fail_media_segment_job(second, js(note), NOW_SECOND);
    assert_eq!(second.next_attempt_at.as_deref(), Some("2026-07-04 18:40:15"));
    let failed = retry_or_fail_media_segment_job(job, js(note), NOW_SECOND);
    assert_eq!(failed.finished_at.as_deref(), Some(NOW));
    assert_eq!(failed.status, "failed");
    assert!(failed.next_attempt_at.is_none());
    assert_eq!(retry_delay_seconds(1), consts::PROVIDER_JOB_RETRY_BACKOFF_SECONDS);
}

#[test]
fn stale_running_media_segment_job_is_requeued_when_attempts_remain() {
    let stale = consts::MEDIA_SEGMENT_STALE_RUNNING_JOB_SECONDS;
    let job = claimed_frame_hash();
    assert_eq!(job.status, "running");
    assert_eq!(job.attempts, 1);
    let recovered = recover_stale_job(
        job,
        Instant { seconds: NOW_SECOND + stale + 60, nanos: 0 },
        stale,
    )
    .expect("a stale job");
    assert_eq!(recovered.status, "queued");
    assert_eq!(recovered.attempts, 1);
    assert!(recovered.locked_by.is_none());
    assert!(recovered.next_attempt_at.is_some());
    assert_eq!(error_text(&recovered, "reason").as_deref(), Some("stale_running_job"));
    let summary = count_recovered_job(no_recovery(), &recovered);
    assert_eq!(summary.recovered, 1);
    assert_eq!(summary.requeued, 1);
    assert_eq!(summary.failed, 0);
}

#[test]
fn stale_running_media_segment_job_fails_when_attempts_are_exhausted() {
    let mut job = claimed_frame_hash();
    job.attempts = job.max_attempts;
    let recovered = recover_stale_job(
        job,
        Instant {
            seconds: NOW_SECOND + consts::MEDIA_SEGMENT_STALE_RUNNING_JOB_SECONDS + 60,
            nanos: 0,
        },
        consts::MEDIA_SEGMENT_STALE_RUNNING_JOB_SECONDS,
    )
    .expect("a stale job");
    assert_eq!(recovered.status, "failed");
    assert!(recovered.locked_by.is_none());
    assert!(recovered.next_attempt_at.is_none());
    assert!(recovered.finished_at.is_some());
    assert_eq!(recovered.attempts, recovered.max_attempts);
    assert_eq!(error_text(&recovered, "reason").as_deref(), Some("stale_running_job"));
    let summary = count_recovered_job(no_recovery(), &recovered);
    assert_eq!(summary.recovered, 1);
    assert_eq!(summary.failed, 1);
    assert_eq!(summary.requeued, 0);
}

#[test]
fn a_job_that_began_after_the_cutoff_goes_on() {
    let at = |seconds: i64, nanos: u32| Instant { seconds: NOW_SECOND + seconds, nanos };
    assert!(recover_stale_job(claimed(), at(99, 999_999_999), 100).is_none());
    assert!(recover_stale_job(claimed(), at(100, 0), 100).is_some());
    assert_eq!(stale_after(1), 60);
    assert!(recover_stale_job(claimed(), at(59, 0), 1).is_none());
    let back = recover_stale_job(claimed(), at(60, 0), 1).expect("a stale job");
    assert_eq!(back.next_attempt_at.as_deref(), Some("2026-07-04 18:36:15"));
    assert_eq!(error_text(&back, "recovered_at").as_deref(), Some("2026-07-04 18:31:15"));
    assert!(recover_stale_job(queued("theintrodb"), at(9_999, 0), 60).is_none());
    let mut unread = claimed();
    unread.started_at = Some("yesterday".to_string());
    assert!(recover_stale_job(unread, at(9_999, 0), 60).is_none());
    let started = Some(Instant { seconds: NOW_SECOND + 1, nanos: 0 });
    assert!(recover_job_started_at(claimed(), started, at(60, 999_999_999), 60).is_none());
    assert!(recover_job_started_at(claimed(), started, at(61, 0), 60).is_some());
}

#[test]
fn requests_are_brought_into_normal_form() {
    let request = MediaSegmentJobEnqueueRequest {
        job_type: "provider_refresh".to_string(),
        scope_type: "media_file".to_string(),
        scope_id: " file-1 ".to_string(),
        provider_kind: "community-markers".to_string(),
        priority: Some(10),
    };
    let normal = normalize_media_segment_job_enqueue_request(request).expect("a request");
    assert_eq!(normal.provider_kind, "community_markers");
    assert_eq!(normal.scope_id, "file-1");
    assert!(plan_media_segment_job_request(&normal, false).is_err());
    assert!(matches!(
        plan_media_segment_job_request(&normal, true),
        Ok(JobKind::MarketplaceRefresh)
    ));
}

#[test]
fn a_refresh_that_failed_is_tried_again() {
    let job = claimed();
    let stored = claimed();
    let run = finish_job_run(
        &job,
        stored,
        JobOutcome::ProviderRefresh(Err("media segment provider response exceeds 262144 bytes".to_string())),
        NOW_SECOND,
    );
    assert_eq!(run.job.status, "queued");
    assert_eq!(run.job.next_attempt_at.as_deref(), Some(LATER));
    assert!(run.summary.is_none());
    assert_eq!(error_text(&run.job, "reason").as_deref(), Some("provider_refresh_failed"));
    assert!(
        error_text(&run.job, "error")
            .expect("an error")
            .contains("media segment provider response exceeds")
    );
}

#[test]
fn a_refresh_of_a_disabled_provider_is_skipped() {
    let job = claimed();
    let mut summary = new_refresh_summary("file-1");
    summary.providers.push(disabled_provider_outcome("theintrodb"));
    let run = finish_job_run(&job, claimed(), JobOutcome::ProviderRefresh(Ok(summary)), NOW_SECOND);
    assert_eq!(run.job.finished_at.as_deref(), Some(NOW));
    assert_eq!(run.job.status, "skipped");
    let summary = run.summary.expect("a summary");
    assert_eq!(summary.candidates_submitted, 0);
    assert!(!summary.providers[0].enabled);
    assert_eq!(summary.providers[0].status, "skipped");
    assert_eq!(summary.providers[0].reason.as_deref(), Some("provider_disabled"));
}

#[test]
fn candidates_are_counted_by_their_outcome() {
    let mut summary = new_refresh_summary("file-1");
    let mut outcome = disabled_provider_outcome("theintrodb");
    count_candidate(&mut summary, &mut outcome, "accepted");
    count_candidate(&mut summary, &mut outcome, "rejected");
    assert_eq!(summary.candidates_submitted, 2);
    assert_eq!(summary.candidates_accepted, 1);
    assert_eq!(summary.candidates_rejected, 1);
    assert_eq!(outcome.accepted_count, 1);
    assert_eq!(outcome.rejected_count, 1);
}

#[test]
fn worker_iteration_runtime_budget_prevents_new_job_claims() {
    let mut work = no_work();
    count_enqueue(&mut work.builtin, true);
    let summary = begin_worker_iteration(no_recovery(), &work, 0);
    assert_eq!(summary.runtime_budget_seconds, 0);
    assert_eq!(summary.enqueue.jobs_queued, 1);
    let step = next_worker_step(&summary, 2, 0, false);
    assert!(matches!(step, WorkerStep::BudgetSpent));
    let ended = end_worker_iteration(summary, Some(step), 0);
    assert!(ended.runtime_budget_exhausted);
    assert_eq!(ended.jobs_run, 0);
}

#[test]
fn a_job_is_counted_under_its_labels() {
    let job = claimed();
    assert_eq!(
        record_media_segment_job_status(&job),
        vec!["theintrodb", "provider_refresh", "running"]
    );
    assert_eq!(record_media_segment_candidate("chapter", "accepted"), vec!["chapter", "accepted"]);
}

#[test]
fn only_a_finished_job_has_a_duration() {
    assert_eq!(record_media_segment_job_duration(&claimed()), None);
    let done = finish_media_segment_job(claimed(), "succeeded", None, LATER).expect("finished");
    assert_eq!(record_media_segment_job_duration(&done), Some(300_000));
    let mut backwards = finish_media_segment_job(claimed(), "succeeded", None, LATER).expect("finished");
    backwards.finished_at = Some("2026-07-04 18:30:14.500".to_string());
    assert_eq!(record_media_segment_job_duration(&backwards), None);
    let mut fraction = finish_media_segment_job(claimed(), "failed", None, LATER).expect("finished");
    fraction.finished_at = Some("2026-07-04T18:30:15.2509Z".to_string());
    assert_eq!(record_media_segment_job_duration(&fraction), Some(250));
    assert_eq!(keep_lasting(Some(-1)), None);
    assert_eq!(keep_lasting(Some(0)), Some(0));
    assert_eq!(keep_lasting(None), None);
}

fn count(segment_type: &str, source_label: &str, n: i64) -> ActiveCount {
    ActiveCount {
        segment_type: segment_type.to_string(),
        source_label: source_label.to_string(),
        count: n,
    }
}

fn shown(counts: &Vec<ActiveCount>) -> Vec<(String, String, i64)> {
    counts
        .iter()
        .map(|c| (c.segment_type.clone(), c.source_label.clone(), c.count))
        .collect()
}

#[test]
fn gauges_of_segments_that_are_gone_are_set_to_zero() {
    let mut known: Vec<ActiveCount> = Vec::new();
    let first = update_active_media_segment_metrics(
        &mut known,
        &vec![count("outro", "AniSkip", 2), count("intro", "Chapter", 3)],
    );
    assert_eq!(
        shown(&first),
        vec![
            ("intro".to_string(), "Chapter".to_string(), 3),
            ("outro".to_string(), "AniSkip".to_string(), 2),
        ]
    );
    let second = update_active_media_segment_metrics(&mut known, &vec![count("outro", "AniSkip", 5)]);
    assert_eq!(
        shown(&second),
        vec![
            ("intro".to_string(), "Chapter".to_string(), 0),
            ("outro".to_string(), "AniSkip".to_string(), 5),
        ]
    );
    assert_eq!(shown(&known), vec![("outro".to_string(), "AniSkip".to_string(), 5)]);
}

#[test]
fn the_backlog_is_reset_and_counted() {
    assert_eq!(
        reset_media_segment_job_backlog(),
        vec![("queued".to_string(), 0), ("running".to_string(), 0), ("failed".to_string(), 0)]
    );
    let rows = vec![("queued".to_string(), 4), ("succeeded".to_string(), 9), ("failed".to_string(), 1)];
    assert_eq!(
        update_media_segment_job_backlog_metrics(&rows),
        vec![("queued".to_string(), 4), ("failed".to_string(), 1)]
    );
}

#[test]
fn films_leave_room_for_episodes_in_a_batch() {
    assert_eq!(due_batch_limit(0), 1);
    assert_eq!(due_episode_limit(true, 5, 3), Some(2));
    assert_eq!(due_episode_limit(true, 5, 5), None);
    assert_eq!(due_episode_limit(true, 5, 6), None);
    assert_eq!(due_episode_limit(false, 5, 0), None);
    let listed = vec!["f1".to_string(), "f2".to_string(), "e1".to_string(), "f1".to_string()];
    assert_eq!(distinct_media_file_ids(&listed), vec!["f1", "f2", "e1"]);
}

#[test]
fn a_taken_job_is_not_taken_again_until_it_is_queued_again() {
    let taken = claimed();
    let again = claim_media_segment_job(taken.clone(), "worker-2", true, NOW).expect("a worker");
    assert!(again.is_none());
    let stopped = cancel_media_segment_job(taken, None, NOW).expect("cancelled");
    let back = retry_media_segment_job(stopped, None, NOW).expect("queued again");
    let third = claim_media_segment_job(back, "worker-3", true, NOW).expect("a worker");
    assert_eq!(third.expect("a job").locked_by.as_deref(), Some("worker-3"));
}
