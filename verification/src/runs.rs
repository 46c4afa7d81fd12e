//! What a run of a job reports, and what becomes of the job.

use vstd::prelude::*;
use crate::error::opt_text;
use crate::jobs::{self, Job, MediaSegmentJobRecord};
use crate::json::{self, Json, JsonValue};
use crate::outside;
use crate::text;

verus! {

/// What the chapters of a file led to.
#[derive(Debug, Clone, Default)]
pub struct ChapterIngestionSummary {
    pub media_file_id: String,
    pub chapters_seen: usize,
    pub candidates_submitted: usize,
    pub candidates_accepted: usize,
    pub candidates_rejected: usize,
    pub active_segments: usize,
}

/// What the providers of a file led to.
#[derive(Debug, Clone, Default)]
pub struct BuiltinProviderRefreshSummary {
    pub media_file_id: String,
    pub providers: Vec<BuiltinProviderRefreshOutcome>,
    pub candidates_submitted: usize,
    pub candidates_accepted: usize,
    pub candidates_rejected: usize,
    pub active_segments: usize,
}

/// What one provider led to.
#[derive(Debug, Clone)]
pub struct BuiltinProviderRefreshOutcome {
    pub provider_kind: String,
    pub enabled: bool,
    pub status: String,
    pub cache_hit: bool,
    pub candidate_count: usize,
    pub accepted_count: usize,
    pub rejected_count: usize,
    pub reason: Option<String>,
}

/// How a refresh of built-in providers is done.
#[derive(Debug, Clone, Default)]
pub struct BuiltinProviderRefreshOptions {
    pub force_refresh: Option<bool>,
    pub provider_kind: Option<String>,
}

/// What the audio detector found in a season.
#[derive(Debug, Clone, Default)]
pub struct LocalAudioDetectorSummary {
    pub season_id: String,
    pub status: String,
    pub files_seen: usize,
    pub files_with_fingerprints: usize,
    pub repeated_groups: usize,
    pub candidates_submitted: usize,
    pub candidates_accepted: usize,
    pub candidates_rejected: usize,
    pub active_segments: usize,
    pub reason: Option<String>,
}

/// What the fingerprinting of a file's audio came to.
#[derive(Debug, Clone, Default)]
pub struct LocalAudioFingerprintSummary {
    pub media_file_id: String,
    pub status: String,
    pub duration_seconds: Option<i64>,
    pub file_size_bytes: Option<i64>,
    pub windows_planned: usize,
    pub windows_fingerprinted: usize,
    pub extraction_ranges: usize,
    pub fingerprint_version: String,
    pub reason: Option<String>,
}

/// What the hashing of a file's frames came to.
#[derive(Debug, Clone, Default)]
pub struct LocalVisualFrameHashSummary {
    pub media_file_id: String,
    pub status: String,
    pub duration_seconds: Option<i64>,
    pub file_size_bytes: Option<i64>,
    pub extraction_ranges: usize,
    pub frames_planned: usize,
    pub frames_extracted: usize,
    pub frame_width: usize,
    pub frame_height: usize,
    pub fingerprint_version: String,
    pub reason: Option<String>,
}

/// What the visual detector found in a file.
#[derive(Debug, Clone, Default)]
pub struct LocalVisualDetectorSummary {
    pub media_file_id: String,
    pub status: String,
    pub duration_seconds: Option<i64>,
    pub frames_seen: usize,
    pub credits_like_frames: usize,
    pub sustained_runs: usize,
    pub candidates_submitted: usize,
    pub candidates_accepted: usize,
    pub candidates_rejected: usize,
    pub active_segments: usize,
    pub detector_version: String,
    pub reason: Option<String>,
}

/// A job after a run, with what the run reported.
#[derive(Debug, Clone)]
pub struct MediaSegmentJobRunRecord {
    pub job: MediaSegmentJobRecord,
    pub summary: Option<BuiltinProviderRefreshSummary>,
    pub local_audio_fingerprint_summary: Option<LocalAudioFingerprintSummary>,
    pub local_visual_frame_hash_summary: Option<LocalVisualFrameHashSummary>,
    pub local_audio_summary: Option<LocalAudioDetectorSummary>,
    pub local_visual_summary: Option<LocalVisualDetectorSummary>,
}

/// How a run of a job went: its report, or the message of its error.
#[derive(Debug)]
pub enum JobOutcome {
    AudioFingerprint(Result<LocalAudioFingerprintSummary, String>),
    AudioDetector(Result<LocalAudioDetectorSummary, String>),
    FrameHash(Result<LocalVisualFrameHashSummary, String>),
    VisualDetector(Result<LocalVisualDetectorSummary, String>),
    ProviderRefresh(Result<BuiltinProviderRefreshSummary, String>),
    /// The job is of a kind that nothing runs.
    Unsupported,
}

/// What is to become of a job after a run.
pub enum Conclusion {
    Finish { status: Seq<char>, error: Option<Json> },
    Retry { error: Json },
}

/// What is to become of a job after a run of a detector: it is skipped with the
/// reason, or has succeeded.
pub open spec fn local_conclusion(status: Seq<char>, reason: Option<Seq<char>>) -> Conclusion {
    if status == "skipped"@ {
        Conclusion::Finish {
            status: "skipped"@,
            error: match reason {
                Some(r) => Some(Json::Object(seq![("reason"@, Json::Text(r))])),
                None => None,
            },
        }
    } else {
        Conclusion::Finish { status: "succeeded"@, error: None }
    }
}

/// What a job keeps of the error of a run.
pub open spec fn failure_note(reason: Seq<char>, message: Seq<char>, provider: Seq<char>) -> Json {
    Json::Object(
        seq![
            ("error"@, Json::Text(message)),
            ("provider_kind"@, Json::Text(provider)),
            ("reason"@, Json::Text(reason)),
        ],
    )
}

/// Whether a provider was not asked for want of requests.
pub open spec fn any_rate_limited(providers: Seq<BuiltinProviderRefreshOutcome>) -> bool {
    exists|i: int| 0 <= i < providers.len() && #[trigger] providers[i].status@ == "rate_limited"@
}

/// Whether every provider was skipped.
pub open spec fn all_skipped(providers: Seq<BuiltinProviderRefreshOutcome>) -> bool {
    forall|i: int| 0 <= i < providers.len() ==> #[trigger] providers[i].status@ == "skipped"@
}

/// What is to become of a job after a refresh of providers.
pub open spec fn refresh_conclusion(
    providers: Seq<BuiltinProviderRefreshOutcome>,
    provider: Seq<char>,
) -> Conclusion {
    if any_rate_limited(providers) {
        Conclusion::Retry {
            error: Json::Object(
                seq![
                    ("provider_kind"@, Json::Text(provider)),
                    ("reason"@, Json::Text("provider_rate_limited"@)),
                ],
            ),
        }
    } else {
        Conclusion::Finish {
            status: if all_skipped(providers) {
                "skipped"@
            } else {
                "succeeded"@
            },
            error: None,
        }
    }
}

/// What a job keeps where nothing runs its kind.
pub open spec fn unsupported_note(j: Job) -> Json {
    Json::Object(
        seq![
            ("job_type"@, Json::Text(j.job_type)),
            ("provider_kind"@, Json::Text(j.provider_kind)),
            ("reason"@, Json::Text("unsupported_media_segment_job"@)),
            ("scope_type"@, Json::Text(j.scope_type)),
        ],
    )
}

/// What is to become of a job after a run.
pub open spec fn conclusion(j: Job, outcome: JobOutcome) -> Conclusion {
    match outcome {
        JobOutcome::AudioFingerprint(Ok(s)) => local_conclusion(s.status@, opt_text(s.reason)),
        JobOutcome::AudioFingerprint(Err(m)) => Conclusion::Retry {
            error: failure_note("local_audio_fingerprint_failed"@, m@, j.provider_kind),
        },
        JobOutcome::AudioDetector(Ok(s)) => local_conclusion(s.status@, opt_text(s.reason)),
        JobOutcome::AudioDetector(Err(m)) => Conclusion::Retry {
            error: failure_note("local_audio_detector_failed"@, m@, j.provider_kind),
        },
        JobOutcome::FrameHash(Ok(s)) => local_conclusion(s.status@, opt_text(s.reason)),
        JobOutcome::FrameHash(Err(m)) => Conclusion::Retry {
            error: failure_note("local_visual_frame_hash_failed"@, m@, j.provider_kind),
        },
        JobOutcome::VisualDetector(Ok(s)) => local_conclusion(s.status@, opt_text(s.reason)),
        JobOutcome::VisualDetector(Err(m)) => Conclusion::Retry {
            error: failure_note("local_visual_detector_failed"@, m@, j.provider_kind),
        },
        JobOutcome::ProviderRefresh(Ok(s)) => refresh_conclusion(s.providers@, j.provider_kind),
        JobOutcome::ProviderRefresh(Err(m)) => Conclusion::Retry {
            error: failure_note("provider_refresh_failed"@, m@, j.provider_kind),
        },
        JobOutcome::Unsupported => Conclusion::Finish {
            status: "skipped"@,
            error: Some(unsupported_note(j)),
        },
    }
}

/// The stored job after a run was concluded at a second.
pub open spec fn concluded(stored: Job, c: Conclusion, now: i64) -> Job {
    match c {
        Conclusion::Finish { status, error } => jobs::finished(
            stored,
            status,
            error,
            outside::utc_text(now),
        ),
        Conclusion::Retry { error } => jobs::retried_at(stored, error, now),
    }
}

fn failure_value(reason: &str, message: &str, provider: &str) -> (v: JsonValue)
    ensures
        v@ == failure_note(reason@, message@, provider@),
{
    let mut o: Vec<(String, JsonValue)> = Vec::new();
    o.push(("error".to_owned(), json::text_value(message)));
    o.push(("provider_kind".to_owned(), json::text_value(provider)));
    o.push(("reason".to_owned(), json::text_value(reason)));
    proof {
        json::lemma_view_object(o);
        assert(json::members_of(o@) =~= failure_note(reason@, message@, provider@)->Object_0);
    }
    JsonValue::Object(o)
}

fn conclude_local(
    stored: MediaSegmentJobRecord,
    status: &str,
    reason: &Option<String>,
    now: i64,
) -> (r: MediaSegmentJobRecord)
    requires
        outside::in_calendar(now as int),
    ensures
        r@ == concluded(stored@, local_conclusion(status@, opt_text(*reason)), now),
{
    if text::str_eq(status, "skipped") {
        let error = match reason {
            Some(m) => {
                let mut o: Vec<(String, JsonValue)> = Vec::new();
                o.push(("reason".to_owned(), JsonValue::Text(m.clone())));
                proof {
                    json::lemma_view_object(o);
                    assert(json::members_of(o@) =~= seq![("reason"@, Json::Text(m@))]);
                }
                Some(JsonValue::Object(o))
            },
            None => None,
        };
        jobs::set_final_status(stored, "skipped", error, jobs::timestamp_after(now, 0).as_str())
    } else {
        jobs::set_final_status(stored, "succeeded", None, jobs::timestamp_after(now, 0).as_str())
    }
}

fn conclude_refresh(
    stored: MediaSegmentJobRecord,
    providers: &Vec<BuiltinProviderRefreshOutcome>,
    provider: &str,
    now: i64,
) -> (r: MediaSegmentJobRecord)
    requires
        jobs::retry_in_calendar(stored@, now),
    ensures
        r@ == concluded(stored@, refresh_conclusion(providers@, provider@), now),
{
    let mut limited = false;
    let mut skipped = true;
    let mut i: usize = 0;
    while i < providers.len()
        invariant
            i <= providers@.len(),
            limited == (exists|j: int|
                0 <= j < i && #[trigger] providers@[j].status@ == "rate_limited"@),
            skipped == (forall|j: int|
                0 <= j < i ==> #[trigger] providers@[j].status@ == "skipped"@),
        decreases providers@.len() - i,
    {
        let status = providers[i].status.as_str();
        if text::str_eq(status, "rate_limited") {
            assert(providers@[i as int].status@ == "rate_limited"@);
            limited = true;
        }
        if !text::str_eq(status, "skipped") {
            assert(providers@[i as int].status@ != "skipped"@);
            skipped = false;
        }
        i += 1;
    }
    if limited {
        let mut o: Vec<(String, JsonValue)> = Vec::new();
        o.push(("provider_kind".to_owned(), json::text_value(provider)));
        o.push(("reason".to_owned(), json::text_value("provider_rate_limited")));
        proof {
            json::lemma_view_object(o);
            assert(json::members_of(o@) =~= seq![
                ("provider_kind"@, Json::Text(provider@)),
                ("reason"@, Json::Text("provider_rate_limited"@)),
            ]);
        }
        jobs::retry_or_fail_media_segment_job(stored, JsonValue::Object(o), now)
    } else if skipped {
        jobs::set_final_status(stored, "skipped", None, jobs::timestamp_after(now, 0).as_str())
    } else {
        jobs::set_final_status(stored, "succeeded", None, jobs::timestamp_after(now, 0).as_str())
    }
}

fn conclude_unsupported(
    stored: MediaSegmentJobRecord,
    claimed: &MediaSegmentJobRecord,
    now: i64,
) -> (r: MediaSegmentJobRecord)
    requires
        outside::in_calendar(now as int),
    ensures
        r@ == jobs::finished(
            stored@,
            "skipped"@,
            Some(unsupported_note(claimed@)),
            outside::utc_text(now),
        ),
{
    let mut o: Vec<(String, JsonValue)> = Vec::new();
    o.push(("job_type".to_owned(), JsonValue::Text(claimed.job_type.clone())));
    o.push(("provider_kind".to_owned(), JsonValue::Text(claimed.provider_kind.clone())));
    o.push(("reason".to_owned(), json::text_value("unsupported_media_segment_job")));
    o.push(("scope_type".to_owned(), JsonValue::Text(claimed.scope_type.clone())));
    proof {
        json::lemma_view_object(o);
        assert(json::members_of(o@) =~= unsupported_note(claimed@)->Object_0);
    }
    jobs::set_final_status(stored, "skipped", Some(JsonValue::Object(o)), jobs::timestamp_after(now, 0).as_str())
}

fn conclude_error(
    stored: MediaSegmentJobRecord,
    claimed: &MediaSegmentJobRecord,
    reason: &str,
    message: &str,
    now: i64,
) -> (r: MediaSegmentJobRecord)
    requires
        jobs::retry_in_calendar(stored@, now),
    ensures
        r@ == jobs::retried_at(
            stored@,
            failure_note(reason@, message@, claimed@.provider_kind),
            now,
        ),
{
    let note = failure_value(reason, message, claimed.provider_kind.as_str());
    jobs::retry_or_fail_media_segment_job(stored, note, now)
}

fn bare_run(job: MediaSegmentJobRecord) -> (r: MediaSegmentJobRunRecord)
    ensures
        r.job == job,
        r.summary is None,
        r.local_audio_fingerprint_summary is None,
        r.local_audio_summary is None,
        r.local_visual_frame_hash_summary is None,
        r.local_visual_summary is None,
{
    MediaSegmentJobRunRecord {
        job,
        summary: None,
        local_audio_fingerprint_summary: None,
        local_audio_summary: None,
        local_visual_frame_hash_summary: None,
        local_visual_summary: None,
    }
}

/// The report of a run, where it is of the given kind.
pub open spec fn refresh_report(outcome: JobOutcome) -> Option<BuiltinProviderRefreshSummary> {
    match outcome {
        JobOutcome::ProviderRefresh(Ok(s)) => Some(s),
        _ => None,
    }
}

pub open spec fn local_audio_fingerprint_summary_report(outcome: JobOutcome) -> Option<LocalAudioFingerprintSummary> {
    match outcome {
        JobOutcome::AudioFingerprint(Ok(s)) => Some(s),
        _ => None,
    }
}

pub open spec fn local_audio_summary_report(outcome: JobOutcome) -> Option<LocalAudioDetectorSummary> {
    match outcome {
        JobOutcome::AudioDetector(Ok(s)) => Some(s),
        _ => None,
    }
}

pub open spec fn local_visual_frame_hash_summary_report(outcome: JobOutcome) -> Option<LocalVisualFrameHashSummary> {
    match outcome {
        JobOutcome::FrameHash(Ok(s)) => Some(s),
        _ => None,
    }
}

pub open spec fn local_visual_summary_report(outcome: JobOutcome) -> Option<LocalVisualDetectorSummary> {
    match outcome {
        JobOutcome::VisualDetector(Ok(s)) => Some(s),
        _ => None,
    }
}

/// Ends a run of a job at the second `now`. `claimed` is the job as its worker took
/// it and `stored` as it is stored by now.
pub fn finish_job_run(
    claimed: &MediaSegmentJobRecord,
    stored: MediaSegmentJobRecord,
    outcome: JobOutcome,
    now: i64,
) -> (r: MediaSegmentJobRunRecord)
    requires
        jobs::retry_in_calendar(stored@, now),
    ensures
        r.job@ == concluded(stored@, conclusion(claimed@, outcome), now),
        r.summary == refresh_report(outcome),
        r.local_audio_fingerprint_summary == local_audio_fingerprint_summary_report(outcome),
        r.local_audio_summary == local_audio_summary_report(outcome),
        r.local_visual_frame_hash_summary == local_visual_frame_hash_summary_report(outcome),
        r.local_visual_summary == local_visual_summary_report(outcome),
{
    match outcome {
        JobOutcome::AudioFingerprint(Ok(s)) => {
            let job = conclude_local(stored, s.status.as_str(), &s.reason, now);
            let mut run = bare_run(job);
            run.local_audio_fingerprint_summary = Some(s);
            run
        },
        JobOutcome::AudioFingerprint(Err(m)) => bare_run(
            conclude_error(
                stored,
                claimed,
                "local_audio_fingerprint_failed",
                m.as_str(),
                now,
            ),
        ),
        JobOutcome::AudioDetector(Ok(s)) => {
            let job = conclude_local(stored, s.status.as_str(), &s.reason, now);
            let mut run = bare_run(job);
            run.local_audio_summary = Some(s);
            run
        },
        JobOutcome::AudioDetector(Err(m)) => bare_run(
            conclude_error(
                stored,
                claimed,
                "local_audio_detector_failed",
                m.as_str(),
                now,
            ),
        ),
        JobOutcome::FrameHash(Ok(s)) => {
            let job = conclude_local(stored, s.status.as_str(), &s.reason, now);
            let mut run = bare_run(job);
            run.local_visual_frame_hash_summary = Some(s);
            run
        },
        JobOutcome::FrameHash(Err(m)) => bare_run(
            conclude_error(
                stored,
                claimed,
                "local_visual_frame_hash_failed",
                m.as_str(),
                now,
            ),
        ),
        JobOutcome::VisualDetector(Ok(s)) => {
            let job = conclude_local(stored, s.status.as_str(), &s.reason, now);
            let mut run = bare_run(job);
            run.local_visual_summary = Some(s);
            run
        },
        JobOutcome::VisualDetector(Err(m)) => bare_run(
            conclude_error(
                stored,
                claimed,
                "local_visual_detector_failed",
                m.as_str(),
                now,
            ),
        ),
        JobOutcome::ProviderRefresh(Ok(s)) => {
            let job = conclude_refresh(
                stored,
                &s.providers,
                claimed.provider_kind.as_str(),
                now,
            );
            let mut run = bare_run(job);
            run.summary = Some(s);
            run
        },
        JobOutcome::ProviderRefresh(Err(m)) => bare_run(
            conclude_error(
                stored,
                claimed,
                "provider_refresh_failed",
                m.as_str(),
                now,
            ),
        ),
        JobOutcome::Unsupported => bare_run(conclude_unsupported(stored, claimed, now)),
    }
}

/// However a run went, its job is afterwards queued again or done, and sound; a
/// job that was cancelled meanwhile stays cancelled.
pub proof fn runs_end_in_sound_jobs(
    claimed: Job,
    stored: Job,
    outcome: JobOutcome,
    now: i64,
)
    requires
        jobs::job_sound(stored),
    ensures
        jobs::job_sound(concluded(stored, conclusion(claimed, outcome), now)),
        stored.status == "cancelled"@ ==> concluded(
            stored,
            conclusion(claimed, outcome),
            now,
        ) == stored,
        stored.status == "running"@ ==> concluded(
            stored,
            conclusion(claimed, outcome),
            now,
        ).status != "running"@,
{
    let c = conclusion(claimed, outcome);
    let status = match c {
        Conclusion::Finish { status, .. } => status,
        Conclusion::Retry { .. } => "failed"@,
    };
    let error = match c {
        Conclusion::Finish { error, .. } => error,
        Conclusion::Retry { .. } => None,
    };
    let note = match c {
        Conclusion::Finish { .. } => Json::Null,
        Conclusion::Retry { error } => error,
    };
    let at = outside::utc_text(now);
    let next = outside::utc_text((now + jobs::retry_delay(stored.attempts as int)) as i64);
    jobs::changes_keep_jobs_sound(stored, at, status, error, note, None, 0, at, next);
    jobs::lemma_statuses_differ();
    if stored.status == "cancelled"@ {
        jobs::cancellation_is_not_overwritten(stored, status, error, note, at, next);
    }
}

/// A run that failed while attempts were left queues its job again, due once the
/// delay is over.
pub proof fn failed_runs_wait_for_their_delay(
    claimed: Job,
    stored: Job,
    outcome: JobOutcome,
    now: i64,
)
    requires
        conclusion(claimed, outcome) is Retry,
        jobs::tried_again(stored),
    ensures
        concluded(stored, conclusion(claimed, outcome), now).status == "queued"@,
        concluded(stored, conclusion(claimed, outcome), now).next_attempt_at == Some(
            outside::utc_text((now + jobs::retry_delay(stored.attempts as int)) as i64),
        ),
{
    let error = conclusion(claimed, outcome)->Retry_error;
    jobs::failed_attempts_wait_for_their_delay(stored, error, now);
}

/// What becomes of a job after a run: one whose run failed, or was short of
/// requests, is tried again; one that had nothing to do, or that nothing runs, is
/// skipped; any other has succeeded. What failed, and why it was skipped, is kept.
pub proof fn runs_conclude_by_their_report(j: Job, outcome: JobOutcome)
    ensures
        match outcome {
            JobOutcome::AudioFingerprint(Ok(s)) => conclusion(j, outcome) matches Conclusion::Finish {
                status,
                error,
            } && status == (if s.status@ == "skipped"@ {
                "skipped"@
            } else {
                "succeeded"@
            }) && (error is Some <==> s.status@ == "skipped"@ && s.reason is Some) && (error is Some
                ==> json::json_get(error->0, "reason"@) == Some(Json::Text(s.reason->0@))),
            JobOutcome::AudioDetector(Ok(s)) => conclusion(j, outcome) matches Conclusion::Finish {
                status,
                error,
            } && status == (if s.status@ == "skipped"@ {
                "skipped"@
            } else {
                "succeeded"@
            }) && (error is Some <==> s.status@ == "skipped"@ && s.reason is Some) && (error is Some
                ==> json::json_get(error->0, "reason"@) == Some(Json::Text(s.reason->0@))),
            JobOutcome::FrameHash(Ok(s)) => conclusion(j, outcome) matches Conclusion::Finish {
                status,
                error,
            } && status == (if s.status@ == "skipped"@ {
                "skipped"@
            } else {
                "succeeded"@
            }) && (error is Some <==> s.status@ == "skipped"@ && s.reason is Some) && (error is Some
                ==> json::json_get(error->0, "reason"@) == Some(Json::Text(s.reason->0@))),
            JobOutcome::VisualDetector(Ok(s)) => conclusion(j, outcome) matches Conclusion::Finish {
                status,
                error,
            } && status == (if s.status@ == "skipped"@ {
                "skipped"@
            } else {
                "succeeded"@
            }) && (error is Some <==> s.status@ == "skipped"@ && s.reason is Some) && (error is Some
                ==> json::json_get(error->0, "reason"@) == Some(Json::Text(s.reason->0@))),
            JobOutcome::ProviderRefresh(Ok(s)) => {
                let limited = exists|i: int|
                    0 <= i < s.providers@.len() && #[trigger] s.providers@[i].status@
                        == "rate_limited"@;
                let idle = forall|i: int|
                    0 <= i < s.providers@.len() ==> #[trigger] s.providers@[i].status@
                        == "skipped"@;
                &&& limited ==> conclusion(j, outcome) is Retry
                &&& !limited && idle ==> conclusion(j, outcome) == (Conclusion::Finish {
                    status: "skipped"@,
                    error: None,
                })
                &&& !limited && !idle ==> conclusion(j, outcome) == (Conclusion::Finish {
                    status: "succeeded"@,
                    error: None,
                })
            },
            JobOutcome::Unsupported => conclusion(j, outcome) matches Conclusion::Finish {
                status,
                error,
            } && status == "skipped"@ && error is Some && json::json_get(error->0, "reason"@)
                == Some(Json::Text("unsupported_media_segment_job"@)) && json::json_get(
                error->0,
                "job_type"@,
            ) == Some(Json::Text(j.job_type)),
            _ => conclusion(j, outcome) is Retry,
        },
{
    lemma_run_names_differ();
    let m = unsupported_note(j)->Object_0;
    json::lemma_lookup_at(m, "job_type"@, 0);
    json::lemma_lookup_at(m, "reason"@, 2);
    assert forall|r: Seq<char>| true implies #[trigger] json::json_get(
        Json::Object(seq![("reason"@, Json::Text(r))]),
        "reason"@,
    ) == Some(Json::Text(r)) by {
        json::lemma_lookup_at(seq![("reason"@, Json::Text(r))], "reason"@, 0);
    }
}

proof fn lemma_run_names_differ()
    ensures
        "job_type"@ != "provider_kind"@,
        "job_type"@ != "reason"@,
        "job_type"@ != "scope_type"@,
        "job_type"@ != "error"@,
        "provider_kind"@ != "reason"@,
        "provider_kind"@ != "scope_type"@,
        "provider_kind"@ != "error"@,
        "reason"@ != "scope_type"@,
        "reason"@ != "error"@,
        "scope_type"@ != "error"@,
{
    reveal_strlit("job_type");
    reveal_strlit("provider_kind");
    reveal_strlit("reason");
    reveal_strlit("scope_type");
    reveal_strlit("error");
    assert("job_type"@.len() == 8);
    assert("provider_kind"@.len() == 13);
    assert("reason"@.len() == 6);
    assert("scope_type"@.len() == 10);
    assert("error"@.len() == 5);
}

/// A run that failed tells what failed, of which provider, and the error.
pub proof fn failed_runs_tell_what_failed(j: Job, outcome: JobOutcome)
    ensures
        ({
            let why = match outcome {
                JobOutcome::AudioFingerprint(Err(m)) => Some(
                    ("local_audio_fingerprint_failed"@, m@),
                ),
                JobOutcome::AudioDetector(Err(m)) => Some(("local_audio_detector_failed"@, m@)),
                JobOutcome::FrameHash(Err(m)) => Some(("local_visual_frame_hash_failed"@, m@)),
                JobOutcome::VisualDetector(Err(m)) => Some(("local_visual_detector_failed"@, m@)),
                JobOutcome::ProviderRefresh(Err(m)) => Some(("provider_refresh_failed"@, m@)),
                _ => None,
            };
            why is Some ==> {
                let (reason, text) = why->0;
                conclusion(j, outcome) matches Conclusion::Retry { error } && json::json_get(
                    error,
                    "reason"@,
                ) == Some(Json::Text(reason)) && json::json_get(error, "error"@) == Some(
                    Json::Text(text),
                ) && json::json_get(error, "provider_kind"@) == Some(Json::Text(j.provider_kind))
            }
        }),
{
    lemma_run_names_differ();
    assert forall|a: Seq<char>, b: Seq<char>, c: Seq<char>| true implies {
        let n = #[trigger] failure_note(a, b, c);
        &&& json::json_get(n, "reason"@) == Some(Json::Text(a))
        &&& json::json_get(n, "error"@) == Some(Json::Text(b))
        &&& json::json_get(n, "provider_kind"@) == Some(Json::Text(c))
    } by {
        let m = failure_note(a, b, c)->Object_0;
        json::lemma_lookup_at(m, "error"@, 0);
        json::lemma_lookup_at(m, "provider_kind"@, 1);
        json::lemma_lookup_at(m, "reason"@, 2);
    }
}

/// A job that still runs is given the status that its run concluded in: it is done
/// for good, or tried again while it has attempts left and failed otherwise.
pub proof fn conclusions_reach_the_job(stored: Job, c: Conclusion, now: i64)
    requires
        stored.status == "running"@,
        stored.attempts <= 1_000_000,
        -1_000_000_000_000 <= now <= 1_000_000_000_000,
    ensures
        ({
            let k = concluded(stored, c, now);
            &&& c matches Conclusion::Finish { status, error } ==> (status != "cancelled"@ ==> k.status
                == status && k.error == error && k.finished_at == Some(outside::utc_text(now))
                && k.locked_by is None && k.next_attempt_at is None)
            &&& c matches Conclusion::Retry { error } ==> k.error == Some(error) && k.locked_by is None
                && k.status == (if stored.attempts < stored.max_attempts {
                "queued"@
            } else {
                "failed"@
            })
            &&& k.id == stored.id && k.attempts == stored.attempts
        }),
{
    jobs::lemma_statuses_differ();
}

/// A refresh that was short of requests tells so, and of which provider.
pub proof fn limited_runs_tell_so(
    providers: Seq<BuiltinProviderRefreshOutcome>,
    provider: Seq<char>,
    k: int,
)
    requires
        0 <= k < providers.len(),
        providers[k].status@ == "rate_limited"@,
    ensures
        refresh_conclusion(providers, provider) matches Conclusion::Retry { error }
            && json::json_get(error, "reason"@) == Some(Json::Text("provider_rate_limited"@))
            && json::json_get(error, "provider_kind"@) == Some(Json::Text(provider)),
{
    lemma_run_names_differ();
    let m = seq![
        ("provider_kind"@, Json::Text(provider)),
        ("reason"@, Json::Text("provider_rate_limited"@)),
    ];
    json::lemma_lookup_at(m, "provider_kind"@, 0);
    json::lemma_lookup_at(m, "reason"@, 1);
    assert(any_rate_limited(providers));
}

/// A job that nothing runs tells its scope and its provider.
pub proof fn unsupported_jobs_tell_what_they_are(j: Job)
    ensures
        json::json_get(unsupported_note(j), "provider_kind"@) == Some(
            Json::Text(j.provider_kind),
        ),
        json::json_get(unsupported_note(j), "scope_type"@) == Some(Json::Text(j.scope_type)),
{
    lemma_run_names_differ();
    let m = unsupported_note(j)->Object_0;
    json::lemma_lookup_at(m, "provider_kind"@, 1);
    json::lemma_lookup_at(m, "scope_type"@, 3);
}

} // verus!
