//! Jobs that look for segments: how they are queued, claimed, finished, retried,
//! cancelled and recovered.

use vstd::prelude::*;
use vstd::string::*;
use crate::consts;
use crate::error::{opt_text, refuse, SegmentError};
use crate::json::{self, Json, JsonValue};
use crate::normalize;
use crate::outside::{self, Instant};
use crate::text;

verus! {

/// A job as it is stored.
#[derive(Debug, Clone)]
pub struct MediaSegmentJobRecord {
    pub id: String,
    pub job_type: String,
    pub scope_type: String,
    pub scope_id: String,
    pub provider_kind: String,
    pub status: String,
    pub priority: i64,
    pub attempts: i64,
    pub max_attempts: i64,
    pub next_attempt_at: Option<String>,
    pub locked_by: Option<String>,
    pub started_at: Option<String>,
    pub finished_at: Option<String>,
    pub error: Option<JsonValue>,
}

/// A job as a mathematical value.
pub struct Job {
    pub id: Seq<char>,
    pub job_type: Seq<char>,
    pub scope_type: Seq<char>,
    pub scope_id: Seq<char>,
    pub provider_kind: Seq<char>,
    pub status: Seq<char>,
    pub priority: i64,
    pub attempts: i64,
    pub max_attempts: i64,
    pub next_attempt_at: Option<Seq<char>>,
    pub locked_by: Option<Seq<char>>,
    pub started_at: Option<Seq<char>>,
    pub finished_at: Option<Seq<char>>,
    pub error: Option<Json>,
}

impl View for MediaSegmentJobRecord {
    type V = Job;

    open spec fn view(&self) -> Job {
        Job {
            id: self.id@,
            job_type: self.job_type@,
            scope_type: self.scope_type@,
            scope_id: self.scope_id@,
            provider_kind: self.provider_kind@,
            status: self.status@,
            priority: self.priority,
            attempts: self.attempts,
            max_attempts: self.max_attempts,
            next_attempt_at: opt_text(self.next_attempt_at),
            locked_by: opt_text(self.locked_by),
            started_at: opt_text(self.started_at),
            finished_at: opt_text(self.finished_at),
            error: json::opt_value(self.error),
        }
    }
}

/// A request to queue a job.
#[derive(Debug, Clone)]
pub struct MediaSegmentJobEnqueueRequest {
    pub job_type: String,
    pub scope_type: String,
    pub scope_id: String,
    pub provider_kind: String,
    pub priority: Option<i64>,
}

/// A request to cancel or retry a job.
#[derive(Debug, Clone, Default)]
pub struct MediaSegmentJobActionRequest {
    pub reason: Option<String>,
}

/// Which jobs a listing shows.
#[derive(Debug, Clone, Default)]
pub struct MediaSegmentJobListFilters {
    pub status: Option<String>,
    pub provider_kind: Option<String>,
    pub job_type: Option<String>,
    pub scope_type: Option<String>,
    pub scope_id: Option<String>,
    pub limit: Option<i64>,
}

/// A request to queue a job, in its normal form.
#[derive(Debug, Clone)]
pub struct NormalizedMediaSegmentJobEnqueueRequest {
    pub job_type: String,
    pub scope_type: String,
    pub scope_id: String,
    pub provider_kind: String,
    pub priority: i64,
}

/// `n` brought into the range from `lo` to `hi`.
pub open spec fn clamped(n: int, lo: int, hi: int) -> int {
    if n < lo {
        lo
    } else if n > hi {
        hi
    } else {
        n
    }
}

/// `n` brought into the range from `lo` to `hi`.
pub fn clamp(n: i64, lo: i64, hi: i64) -> (r: i64)
    requires
        lo <= hi,
    ensures
        r == clamped(n as int, lo as int, hi as int),
{
    if n < lo {
        lo
    } else if n > hi {
        hi
    } else {
        n
    }
}

/// The priority of a request that names none.
pub const DEFAULT_JOB_PRIORITY: i64 = 100;

/// The lowest priority; zero is the highest.
pub const MAX_JOB_PRIORITY: i64 = 10_000;

/// The priority that a request asks for.
pub open spec fn priority_of(priority: Option<i64>, default: int) -> int {
    clamped(
        match priority {
            Some(p) => p as int,
            None => default,
        },
        0,
        MAX_JOB_PRIORITY as int,
    )
}

/// Why a request to queue a job is refused: the first that holds.
pub open spec fn enqueue_refusal(request: MediaSegmentJobEnqueueRequest) -> Option<Seq<char>> {
    if text::trim_seq(request.job_type@).len() == 0 {
        Some("job_type"@ + " is required"@)
    } else if text::trim_seq(request.scope_type@).len() == 0 {
        Some("scope_type"@ + " is required"@)
    } else if text::trim_seq(request.scope_id@).len() == 0 {
        Some("scope_id"@ + " is required"@)
    } else if text::trim_seq(request.provider_kind@).len() == 0 {
        Some("provider_kind"@ + " is required"@)
    } else {
        None
    }
}

/// The normal form of a request to queue a job.
pub fn normalize_media_segment_job_enqueue_request(request: MediaSegmentJobEnqueueRequest) -> (r:
    Result<NormalizedMediaSegmentJobEnqueueRequest, SegmentError>)
    ensures
        match r {
            Ok(n) => {
                &&& enqueue_refusal(request) is None
                &&& n.job_type@ == text::snake_seq(request.job_type@)
                &&& n.scope_type@ == text::snake_seq(request.scope_type@)
                &&& n.scope_id@ == text::trim_seq(request.scope_id@)
                &&& n.provider_kind@ == text::snake_seq(request.provider_kind@)
                &&& n.priority == priority_of(request.priority, DEFAULT_JOB_PRIORITY as int)
            },
            Err(e) => enqueue_refusal(request) == Some(e.message@),
        },
{
    let job_type = match normalize::normalize_media_segment_job_identifier_filter(
        request.job_type.as_str(),
        "job_type",
    ) {
        Ok(t) => t,
        Err(e) => {
            return Err(e);
        },
    };
    let scope_type = match normalize::normalize_media_segment_job_identifier_filter(
        request.scope_type.as_str(),
        "scope_type",
    ) {
        Ok(t) => t,
        Err(e) => {
            return Err(e);
        },
    };
    let scope_id = match normalize::normalize_required_text(request.scope_id.as_str(), "scope_id") {
        Ok(t) => t,
        Err(e) => {
            return Err(e);
        },
    };
    let provider_kind = match normalize::normalize_media_segment_job_identifier_filter(
        request.provider_kind.as_str(),
        "provider_kind",
    ) {
        Ok(t) => t,
        Err(e) => {
            return Err(e);
        },
    };
    let wanted: i64 = match request.priority {
        Some(p) => p,
        None => DEFAULT_JOB_PRIORITY,
    };
    let priority: i64 = clamp(wanted, 0, MAX_JOB_PRIORITY);
    Ok(
        NormalizedMediaSegmentJobEnqueueRequest {
            job_type,
            scope_type,
            scope_id,
            provider_kind,
            priority,
        },
    )
}

/// What a job does.
#[derive(Debug, Clone, Copy, PartialEq, Eq, Structural)]
pub enum JobKind {
    AudioFingerprint,
    AudioDetector,
    FrameHash,
    VisualDetector,
    BuiltinRefresh,
    MarketplaceRefresh,
    Unsupported,
}

/// What a job with the given type, scope and provider does when it is run.
pub open spec fn kind_of(job_type: Seq<char>, scope_type: Seq<char>, provider: Seq<char>) -> JobKind {
    let file = scope_type == "media_file"@;
    let season = scope_type == "season"@;
    let audio = provider == "local_audio_recurring"@;
    let visual = provider == "local_visual_recurring"@;
    if job_type == "audio_fingerprint"@ && file && audio {
        JobKind::AudioFingerprint
    } else if job_type == "local_detector"@ && season && audio {
        JobKind::AudioDetector
    } else if job_type == "video_frame_hash"@ && file && visual {
        JobKind::FrameHash
    } else if job_type == "local_detector"@ && file && visual {
        JobKind::VisualDetector
    } else if job_type == "provider_refresh"@ && file {
        if provider == "theintrodb"@ || provider == "aniskip"@ {
            JobKind::BuiltinRefresh
        } else {
            JobKind::MarketplaceRefresh
        }
    } else {
        JobKind::Unsupported
    }
}

/// What a job with the given type, scope and provider does when it is run.
pub fn media_segment_job_kind(job_type: &str, scope_type: &str, provider: &str) -> (r: JobKind)
    ensures
        r == kind_of(job_type@, scope_type@, provider@),
{
    let file = text::str_eq(scope_type, "media_file");
    let season = text::str_eq(scope_type, "season");
    let audio = text::str_eq(provider, "local_audio_recurring");
    let visual = text::str_eq(provider, "local_visual_recurring");
    if text::str_eq(job_type, "audio_fingerprint") && file && audio {
        JobKind::AudioFingerprint
    } else if text::str_eq(job_type, "local_detector") && season && audio {
        JobKind::AudioDetector
    } else if text::str_eq(job_type, "video_frame_hash") && file && visual {
        JobKind::FrameHash
    } else if text::str_eq(job_type, "local_detector") && file && visual {
        JobKind::VisualDetector
    } else if text::str_eq(job_type, "provider_refresh") && file {
        if text::str_eq(provider, "theintrodb") || text::str_eq(provider, "aniskip") {
            JobKind::BuiltinRefresh
        } else {
            JobKind::MarketplaceRefresh
        }
    } else {
        JobKind::Unsupported
    }
}

/// What a request may queue: every kind of job, but a refresh of an installed
/// provider only where such are allowed, and never under a reserved name.
pub open spec fn queueable_kind(
    job_type: Seq<char>,
    scope_type: Seq<char>,
    provider: Seq<char>,
    allow_marketplace: bool,
) -> Option<JobKind> {
    match kind_of(job_type, scope_type, provider) {
        JobKind::Unsupported => None,
        JobKind::MarketplaceRefresh => if allow_marketplace && !normalize::reserved_provider_kind(
            provider,
        ) {
            Some(JobKind::MarketplaceRefresh)
        } else {
            None
        },
        k => Some(k),
    }
}

/// What a normal request queues.
pub fn plan_media_segment_job_request(
    request: &NormalizedMediaSegmentJobEnqueueRequest,
    allow_marketplace: bool,
) -> (r: Result<JobKind, SegmentError>)
    ensures
        match r {
            Ok(k) => queueable_kind(
                request.job_type@,
                request.scope_type@,
                request.provider_kind@,
                allow_marketplace,
            ) == Some(k),
            Err(e) => queueable_kind(
                request.job_type@,
                request.scope_type@,
                request.provider_kind@,
                allow_marketplace,
            ) is None && e.message@ == "unsupported media segment job request"@,
        },
{
    match media_segment_job_kind(
        request.job_type.as_str(),
        request.scope_type.as_str(),
        request.provider_kind.as_str(),
    ) {
        JobKind::Unsupported => Err(refuse("unsupported media segment job request")),
        JobKind::MarketplaceRefresh => if allow_marketplace
            && !normalize::is_reserved_media_segment_provider_kind(request.provider_kind.as_str()) {
            Ok(JobKind::MarketplaceRefresh)
        } else {
            Err(refuse("unsupported media segment job request"))
        },
        k => Ok(k),
    }
}

/// No request queues a refresh of an installed provider under a name of the
/// library's own.
pub proof fn reserved_names_queue_no_marketplace_refresh(
    job_type: Seq<char>,
    scope_type: Seq<char>,
    provider: Seq<char>,
    allow_marketplace: bool,
)
    requires
        normalize::reserved_provider_kind(provider),
    ensures
        queueable_kind(job_type, scope_type, provider, allow_marketplace) != Some(
            JobKind::MarketplaceRefresh,
        ),
{
}

/// The text that a job's id is made from.
pub open spec fn job_key(
    job_type: Seq<char>,
    scope_type: Seq<char>,
    scope_id: Seq<char>,
    provider_kind: Seq<char>,
) -> Seq<char> {
    "media_segment_job:"@ + job_type + ":"@ + scope_type + ":"@ + scope_id + ":"@
        + text::lower_seq(text::trim_seq(provider_kind))
}

/// The text that a job's id is made from.
pub fn media_segment_job_key(
    job_type: &str,
    scope_type: &str,
    scope_id: &str,
    provider_kind: &str,
) -> (r: String)
    ensures
        r@ == job_key(job_type@, scope_type@, scope_id@, provider_kind@),
{
    let t = text::trim(provider_kind);
    let kind = text::to_lower(t.as_str());
    let mut key = "media_segment_job:".to_owned();
    key.append(job_type);
    key.append(":");
    key.append(scope_type);
    key.append(":");
    key.append(scope_id);
    key.append(":");
    key.append(kind.as_str());
    key
}

/// The id of a job: the same work always has the same id, so that it is queued
/// once.
pub fn media_segment_job_id(
    job_type: &str,
    scope_type: &str,
    scope_id: &str,
    provider_kind: &str,
) -> (r: String)
    ensures
        r@ == outside::oid_uuid_text(job_key(job_type@, scope_type@, scope_id@, provider_kind@)),
        outside::hyphenated_uuid(r@),
{
    let key = media_segment_job_key(job_type, scope_type, scope_id, provider_kind);
    outside::oid_uuid(key.as_str())
}

/// The job after it is queued. One that is running goes on running with its
/// new priority and limit; any other starts anew.
pub open spec fn queued(
    stored: Option<Job>,
    id: Seq<char>,
    job_type: Seq<char>,
    scope_type: Seq<char>,
    scope_id: Seq<char>,
    provider_kind: Seq<char>,
    priority: i64,
    max_attempts: i64,
    now: Seq<char>,
) -> Job {
    let limit = clamped(max_attempts as int, 1, i64::MAX as int) as i64;
    let rank = clamped(priority as int, 0, MAX_JOB_PRIORITY as int) as i64;
    if stored is Some && stored->0.status == "running"@ {
        Job {
            job_type,
            scope_type,
            scope_id,
            provider_kind,
            priority: rank,
            max_attempts: limit,
            ..stored->0
        }
    } else {
        Job {
            id,
            job_type,
            scope_type,
            scope_id,
            provider_kind,
            status: "queued"@,
            priority: rank,
            attempts: 0,
            max_attempts: limit,
            next_attempt_at: Some(now),
            locked_by: None,
            started_at: None,
            finished_at: None,
            error: None,
        }
    }
}

/// The job as a mathematical value, where there is one.
pub open spec fn opt_job(j: Option<MediaSegmentJobRecord>) -> Option<Job> {
    match j {
        Some(v) => Some(v@),
        None => None,
    }
}

/// Queues a job. `stored` is the job that has the id already.
pub fn enqueue_media_segment_job(
    stored: Option<MediaSegmentJobRecord>,
    job_type: &str,
    scope_type: &str,
    scope_id: &str,
    provider_kind: &str,
    priority: i64,
    max_attempts: i64,
    now: &str,
) -> (r: MediaSegmentJobRecord)
    ensures
        r@ == queued(
            opt_job(stored),
            outside::oid_uuid_text(job_key(job_type@, scope_type@, scope_id@, provider_kind@)),
            job_type@,
            scope_type@,
            scope_id@,
            provider_kind@,
            priority,
            max_attempts,
            now@,
        ),
        stored is None ==> outside::hyphenated_uuid(r.id@),
{
    let rank: i64 = clamp(priority, 0, MAX_JOB_PRIORITY);
    let limit: i64 = clamp(max_attempts, 1, i64::MAX);
    if let Some(job) = stored {
        if text::str_eq(job.status.as_str(), "running") {
            return MediaSegmentJobRecord {
                id: job.id,
                job_type: job_type.to_owned(),
                scope_type: scope_type.to_owned(),
                scope_id: scope_id.to_owned(),
                provider_kind: provider_kind.to_owned(),
                status: job.status,
                priority: rank,
                attempts: job.attempts,
                max_attempts: limit,
                next_attempt_at: job.next_attempt_at,
                locked_by: job.locked_by,
                started_at: job.started_at,
                finished_at: job.finished_at,
                error: job.error,
            };
        }
    }
    MediaSegmentJobRecord {
        id: media_segment_job_id(job_type, scope_type, scope_id, provider_kind),
        job_type: job_type.to_owned(),
        scope_type: scope_type.to_owned(),
        scope_id: scope_id.to_owned(),
        provider_kind: provider_kind.to_owned(),
        status: "queued".to_owned(),
        priority: rank,
        attempts: 0,
        max_attempts: limit,
        next_attempt_at: Some(now.to_owned()),
        locked_by: None,
        started_at: None,
        finished_at: None,
        error: None,
    }
}

/// Whether a worker may take the job. `due` says whether its next attempt has
/// come.
pub open spec fn claimable(j: Job, due: bool) -> bool {
    j.status == "queued"@ && j.attempts < j.max_attempts && (j.next_attempt_at is None || due)
}

/// The job after a worker took it.
pub open spec fn claimed(j: Job, worker: Seq<char>, now: Seq<char>) -> Job {
    Job {
        status: "running"@,
        attempts: (j.attempts + 1) as i64,
        locked_by: Some(worker),
        started_at: Some(now),
        finished_at: None,
        error: None,
        ..j
    }
}

/// Takes a job for a worker, or leaves it where it may not be taken.
pub fn claim_media_segment_job(
    job: MediaSegmentJobRecord,
    worker_id: &str,
    due: bool,
    now: &str,
) -> (r: Result<Option<MediaSegmentJobRecord>, SegmentError>)
    ensures
        match r {
            Ok(taken) => {
                &&& normalize::worker_id_of(worker_id@) is Ok
                &&& opt_job(taken) == if claimable(job@, due) {
                    Some(claimed(job@, normalize::worker_id_of(worker_id@)->Ok_0, now@))
                } else {
                    None
                }
            },
            Err(e) => normalize::worker_id_of(worker_id@) == Err::<Seq<char>, Seq<char>>(e.message@),
        },
{
    let worker = match normalize::normalize_worker_id(worker_id) {
        Ok(w) => w,
        Err(e) => {
            return Err(e);
        },
    };
    if !text::str_eq(job.status.as_str(), "queued") || job.attempts >= job.max_attempts || !(
    job.next_attempt_at.is_none() || due) {
        return Ok(None);
    }
    Ok(
        Some(
            MediaSegmentJobRecord {
                status: "running".to_owned(),
                attempts: job.attempts + 1,
                locked_by: Some(worker),
                started_at: Some(now.to_owned()),
                finished_at: None,
                error: None,
                ..job
            },
        ),
    )
}

/// Whether a job may still be given a final status: a cancelled job keeps its
/// status but for another cancellation, and a succeeded one is not cancelled.
pub open spec fn finishable(j: Job, status: Seq<char>) -> bool {
    if status == "cancelled"@ {
        j.status != "succeeded"@
    } else {
        j.status != "cancelled"@
    }
}

/// The job after it is given a final status.
pub open spec fn finished(j: Job, status: Seq<char>, error: Option<Json>, now: Seq<char>) -> Job {
    if finishable(j, status) {
        Job {
            status,
            locked_by: None,
            next_attempt_at: None,
            finished_at: Some(now),
            error,
            ..j
        }
    } else {
        j
    }
}

/// Gives a job a final status, where it may still get one.
pub fn finish_media_segment_job(
    job: MediaSegmentJobRecord,
    status: &str,
    error: Option<JsonValue>,
    now: &str,
) -> (r: Result<MediaSegmentJobRecord, SegmentError>)
    ensures
        match r {
            Ok(j) => {
                &&& normalize::terminal_status(status@)
                &&& j@ == finished(job@, status@, json::opt_value(error), now@)
            },
            Err(e) => !normalize::terminal_status(status@) && e.message@
                == "invalid terminal media segment job status"@,
        },
{
    match normalize::ensure_terminal_job_status(status) {
        Ok(_) => {},
        Err(e) => {
            return Err(e);
        },
    }
    Ok(set_final_status(job, status, error, now))
}

/// Gives a job a status that is known to be final, where it may still get one.
pub fn set_final_status(
    job: MediaSegmentJobRecord,
    status: &str,
    error: Option<JsonValue>,
    now: &str,
) -> (r: MediaSegmentJobRecord)
    ensures
        r@ == finished(job@, status@, json::opt_value(error), now@),
{
    let may = if text::str_eq(status, "cancelled") {
        !text::str_eq(job.status.as_str(), "succeeded")
    } else {
        !text::str_eq(job.status.as_str(), "cancelled")
    };
    if may {
        MediaSegmentJobRecord {
            status: status.to_owned(),
            locked_by: None,
            next_attempt_at: None,
            finished_at: Some(now.to_owned()),
            error,
            ..job
        }
    } else {
        job
    }
}

/// How long a failed job waits for its next attempt: longer after each.
pub open spec fn retry_delay(attempts: int) -> int {
    consts::PROVIDER_JOB_RETRY_BACKOFF_SECONDS * if attempts < 1 {
        1
    } else {
        attempts
    }
}

/// How long a failed job waits for its next attempt.
pub fn retry_delay_seconds(attempts: i64) -> (r: i64)
    requires
        retry_delay(attempts as int) <= i64::MAX,
    ensures
        r == retry_delay(attempts as int),
{
    if attempts < 1 {
        consts::PROVIDER_JOB_RETRY_BACKOFF_SECONDS
    } else {
        consts::PROVIDER_JOB_RETRY_BACKOFF_SECONDS * attempts
    }
}

/// The job after a failed attempt: it is queued again while attempts are left,
/// else it has failed. A job that is not running any more stays as it is.
pub open spec fn retried_or_failed(j: Job, error: Json, now: Seq<char>, next: Seq<char>) -> Job {
    if j.status != "running"@ {
        j
    } else if j.attempts >= j.max_attempts {
        Job {
            status: "failed"@,
            locked_by: None,
            next_attempt_at: None,
            finished_at: Some(now),
            error: Some(error),
            ..j
        }
    } else {
        Job {
            status: "queued"@,
            locked_by: None,
            next_attempt_at: Some(next),
            finished_at: None,
            error: Some(error),
            ..j
        }
    }
}

/// Queues a job again after a failed attempt, or lets it fail. `next` is the
/// time of its next attempt.
fn queue_again_or_fail(
    job: MediaSegmentJobRecord,
    error: JsonValue,
    now: String,
    next: String,
) -> (r: MediaSegmentJobRecord)
    ensures
        r@ == retried_or_failed(job@, error@, now@, next@),
{
    if !text::str_eq(job.status.as_str(), "running") {
        return job;
    }
    if job.attempts >= job.max_attempts {
        MediaSegmentJobRecord {
            status: "failed".to_owned(),
            locked_by: None,
            next_attempt_at: None,
            finished_at: Some(now),
            error: Some(error),
            ..job
        }
    } else {
        MediaSegmentJobRecord {
            status: "queued".to_owned(),
            locked_by: None,
            next_attempt_at: Some(next),
            finished_at: None,
            error: Some(error),
            ..job
        }
    }
}

/// Whether a failed attempt leads to another.
pub open spec fn tried_again(j: Job) -> bool {
    j.status == "running"@ && j.attempts < j.max_attempts
}

/// Whether a second, and the time of the next attempt after it where there is
/// one, are within the calendar.
pub open spec fn retry_in_calendar(j: Job, now: i64) -> bool {
    &&& outside::in_calendar(now as int)
    &&& tried_again(j) ==> outside::in_calendar(now + retry_delay(j.attempts as int))
}

/// The job after an attempt that failed at a second: its next attempt is due once
/// the delay is over.
pub open spec fn retried_at(j: Job, error: Json, now: i64) -> Job {
    retried_or_failed(
        j,
        error,
        outside::utc_text(now),
        outside::utc_text((now + retry_delay(j.attempts as int)) as i64),
    )
}

/// Queues a job again after an attempt that failed at the second `now`, or lets it
/// fail.
pub fn retry_or_fail_media_segment_job(
    job: MediaSegmentJobRecord,
    error: JsonValue,
    now: i64,
) -> (r: MediaSegmentJobRecord)
    requires
        retry_in_calendar(job@, now),
    ensures
        r@ == retried_at(job@, error@, now),
        tried_again(job@) ==> timestamp_instant(r@.next_attempt_at->0) == Some(
            ((now + retry_delay(job.attempts as int)) as i64, 0u32),
        ),
{
    if !text::str_eq(job.status.as_str(), "running") {
        return job;
    }
    let next = if job.attempts < job.max_attempts {
        timestamp_after(now, retry_delay_seconds(job.attempts))
    } else {
        String::new()
    };
    queue_again_or_fail(job, error, timestamp_after(now, 0), next)
}

/// What a cancelled job keeps of its cancellation.
pub open spec fn cancellation_note(j: Job, reason: Option<Seq<char>>, now: Seq<char>) -> Json {
    Json::Object(
        seq![
            ("cancelled_at"@, Json::Text(now)),
            (
                "message"@,
                Json::Text(
                    match normalize::reason_of(reason) {
                        Some(r) => r,
                        None => "cancelled by admin"@,
                    },
                ),
            ),
            ("previous_status"@, Json::Text(j.status)),
            ("reason"@, Json::Text("admin_cancelled"@)),
        ],
    )
}

/// The job after it is cancelled, or why it is not.
pub open spec fn cancelled(j: Job, reason: Option<Seq<char>>, now: Seq<char>) -> Result<
    Job,
    Seq<char>,
> {
    if j.status == "cancelled"@ {
        Ok(j)
    } else if j.status == "succeeded"@ {
        Err("succeeded media segment job cannot be cancelled"@)
    } else {
        Ok(finished(j, "cancelled"@, Some(cancellation_note(j, reason, now)), now))
    }
}

/// Whether a result is the job, or the error message, that `s` says.
pub open spec fn job_agrees(
    r: Result<MediaSegmentJobRecord, SegmentError>,
    s: Result<Job, Seq<char>>,
) -> bool {
    match (r, s) {
        (Ok(v), Ok(j)) => v@ == j,
        (Err(e), Err(m)) => e.message@ == m,
        _ => false,
    }
}

/// The characters of a text that may be absent.
pub open spec fn opt_str(t: Option<&str>) -> Option<Seq<char>> {
    match t {
        Some(s) => Some(s@),
        None => None,
    }
}

/// Cancels a job on request.
pub fn cancel_media_segment_job(
    job: MediaSegmentJobRecord,
    reason: Option<&str>,
    now: &str,
) -> (r: Result<MediaSegmentJobRecord, SegmentError>)
    ensures
        job_agrees(r, cancelled(job@, opt_str(reason), now@)),
{
    if text::str_eq(job.status.as_str(), "cancelled") {
        return Ok(job);
    }
    if text::str_eq(job.status.as_str(), "succeeded") {
        return Err(refuse("succeeded media segment job cannot be cancelled"));
    }
    let message = match normalize::normalize_optional_reason(reason) {
        Some(m) => m,
        None => "cancelled by admin".to_owned(),
    };
    let mut o: Vec<(String, JsonValue)> = Vec::new();
    o.push(("cancelled_at".to_owned(), json::text_value(now)));
    o.push(("message".to_owned(), JsonValue::Text(message)));
    o.push(("previous_status".to_owned(), JsonValue::Text(job.status.clone())));
    o.push(("reason".to_owned(), json::text_value("admin_cancelled")));
    proof {
        json::lemma_view_object(o);
        assert(json::members_of(o@) =~= cancellation_note(
            job@,
            opt_str(reason),
            now@,
        )->Object_0);
    }
    finish_media_segment_job(job, "cancelled", Some(JsonValue::Object(o)), now)
}

/// What a job that is retried on request keeps of what it was.
pub open spec fn retry_note(j: Job, reason: Option<Seq<char>>, now: Seq<char>) -> Json {
    Json::Object(
        seq![
            (
                "message"@,
                Json::Text(
                    match normalize::reason_of(reason) {
                        Some(r) => r,
                        None => "retry requested by admin"@,
                    },
                ),
            ),
            ("previous_error"@, json::json_or_null(j.error)),
            ("previous_status"@, Json::Text(j.status)),
            ("reason"@, Json::Text("admin_retry"@)),
            ("retried_at"@, Json::Text(now)),
        ],
    )
}

/// The job after it is queued again on request, or why it is not.
pub open spec fn retried(j: Job, reason: Option<Seq<char>>, now: Seq<char>) -> Result<
    Job,
    Seq<char>,
> {
    if j.status == "running"@ {
        Err("running media segment job cannot be retried"@)
    } else {
        Ok(
            Job {
                status: "queued"@,
                attempts: 0,
                next_attempt_at: Some(now),
                locked_by: None,
                started_at: None,
                finished_at: None,
                error: Some(retry_note(j, reason, now)),
                ..j
            },
        )
    }
}

/// Queues a job again on request.
pub fn retry_media_segment_job(
    job: MediaSegmentJobRecord,
    reason: Option<&str>,
    now: &str,
) -> (r: Result<MediaSegmentJobRecord, SegmentError>)
    ensures
        job_agrees(r, retried(job@, opt_str(reason), now@)),
{
    if text::str_eq(job.status.as_str(), "running") {
        return Err(refuse("running media segment job cannot be retried"));
    }
    let message = match normalize::normalize_optional_reason(reason) {
        Some(m) => m,
        None => "retry requested by admin".to_owned(),
    };
    let mut o: Vec<(String, JsonValue)> = Vec::new();
    o.push(("message".to_owned(), JsonValue::Text(message)));
    o.push(("previous_error".to_owned(), json::value_or_null(&job.error)));
    o.push(("previous_status".to_owned(), JsonValue::Text(job.status.clone())));
    o.push(("reason".to_owned(), json::text_value("admin_retry")));
    o.push(("retried_at".to_owned(), json::text_value(now)));
    proof {
        json::lemma_view_object(o);
        assert(json::members_of(o@) =~= retry_note(job@, opt_str(reason), now@)->Object_0);
    }
    Ok(
        MediaSegmentJobRecord {
            status: "queued".to_owned(),
            attempts: 0,
            next_attempt_at: Some(now.to_owned()),
            locked_by: None,
            started_at: None,
            finished_at: None,
            error: Some(JsonValue::Object(o)),
            ..job
        },
    )
}

/// Whether a moment lies after another.
pub open spec fn later(a: (i64, u32), b: (i64, u32)) -> bool {
    a.0 > b.0 || (a.0 == b.0 && a.1 > b.1)
}

/// The moment that a stored time stands for, read as RFC 3339, else with an
/// offset behind date and time, else as UTC.
pub open spec fn timestamp_instant(value: Seq<char>) -> Option<(i64, u32)> {
    timestamp_choice(
        text::trim_seq(value),
        outside::rfc3339_instant(text::trim_seq(value)),
        outside::zoned_instant(text::trim_seq(value), "%Y-%m-%d %H:%M:%S%.f%:z"@),
        outside::zoned_instant(text::trim_seq(value), "%Y-%m-%d %H:%M:%S%.f%z"@),
        outside::naive_instant(text::trim_seq(value), "%Y-%m-%d %H:%M:%S%.f"@),
    )
}

/// Which of the readings of a text counts: the first that there is, and none
/// for a text without characters.
pub open spec fn timestamp_choice(
    trimmed: Seq<char>,
    rfc3339: Option<(i64, u32)>,
    colon_offset: Option<(i64, u32)>,
    plain_offset: Option<(i64, u32)>,
    naive: Option<(i64, u32)>,
) -> Option<(i64, u32)> {
    if trimmed.len() == 0 {
        None
    } else if rfc3339 is Some {
        rfc3339
    } else if colon_offset is Some {
        colon_offset
    } else if plain_offset is Some {
        plain_offset
    } else {
        naive
    }
}

/// Which of the readings of a text counts.
pub fn choose_timestamp(
    trimmed: &str,
    rfc3339: Option<Instant>,
    colon_offset: Option<Instant>,
    plain_offset: Option<Instant>,
    naive: Option<Instant>,
) -> (r: Option<Instant>)
    ensures
        outside::instant_pair(r) == timestamp_choice(
            trimmed@,
            outside::instant_pair(rfc3339),
            outside::instant_pair(colon_offset),
            outside::instant_pair(plain_offset),
            outside::instant_pair(naive),
        ),
{
    if trimmed.is_empty() {
        None
    } else if rfc3339.is_some() {
        rfc3339
    } else if colon_offset.is_some() {
        colon_offset
    } else if plain_offset.is_some() {
        plain_offset
    } else {
        naive
    }
}

/// The moment that a stored time stands for.
pub fn parse_media_segment_job_timestamp(value: &str) -> (r: Option<Instant>)
    ensures
        outside::instant_pair(r) == timestamp_instant(value@),
{
    let t = text::trim(value);
    let s = t.as_str();
    let rfc3339 = outside::parse_rfc3339(s);
    let colon_offset = outside::parse_zoned(s, "%Y-%m-%d %H:%M:%S%.f%:z");
    let plain_offset = outside::parse_zoned(s, "%Y-%m-%d %H:%M:%S%.f%z");
    let naive = outside::parse_naive(s, "%Y-%m-%d %H:%M:%S%.f");
    choose_timestamp(s, rfc3339, colon_offset, plain_offset, naive)
}

proof fn lemma_shape_is_trimmed(s: Seq<char>)
    requires
        outside::timestamp_shape(s),
    ensures
        text::trim_seq(s) == s,
{
    let n = s.len() as int;
    assert(!text::white_space(s[0]));
    assert(!text::white_space(s[n - 1]));
}

/// The time some seconds after a second, as jobs store it. It reads back as that
/// time, and within the years 0 to 9999 the texts are in the order of the times.
pub fn timestamp_after(now: i64, seconds: i64) -> (r: String)
    requires
        outside::in_calendar(now + seconds),
    ensures
        r@ == outside::utc_text((now + seconds) as i64),
        outside::timestamp_shape(r@),
        timestamp_instant(r@) == Some(((now + seconds) as i64, 0u32)),
        outside::in_common_years(now + seconds) ==> forall|other: i64|
            outside::in_common_years(other as int) ==> (text::lex_lt(
                #[trigger] outside::utc_text(other),
                r@,
            ) <==> other < now + seconds),
{
    let r = outside::format_utc(now + seconds);
    proof {
        lemma_shape_is_trimmed(r@);
    }
    r
}

/// The time now, as jobs store it.
pub fn timestamp_now() -> (r: String)
    ensures
        exists|now: i64|
            0 <= now <= outside::LAST_SECOND && r@ == #[trigger] outside::utc_text(now),
        outside::timestamp_shape(r@),
{
    let now = outside::utc_now();
    timestamp_after(now.seconds, 0)
}

/// The second that lies some seconds after another; the last of the calendar
/// where that is beyond it.
pub open spec fn second_after(now: i64, seconds: i64) -> i64 {
    if now + seconds > outside::LAST_SECOND {
        outside::LAST_SECOND
    } else {
        (now + seconds) as i64
    }
}

/// The time some seconds from now, as jobs store it. It stops at the end of the
/// calendar.
pub fn timestamp_after_seconds(seconds: i64) -> (r: String)
    requires
        outside::in_calendar(seconds as int),
    ensures
        exists|now: i64|
            0 <= now <= outside::LAST_SECOND && r@ == outside::utc_text(
                #[trigger] second_after(now, seconds),
            ),
        outside::timestamp_shape(r@),
{
    let now = outside::utc_now();
    proof {
        assert(0 <= now.seconds <= outside::LAST_SECOND);
    }
    if seconds > outside::LAST_SECOND - now.seconds {
        let r = timestamp_after(outside::LAST_SECOND, 0);
        assert(r@ == outside::utc_text(second_after(now.seconds, seconds)));
        r
    } else {
        let r = timestamp_after(now.seconds, seconds);
        assert(r@ == outside::utc_text(second_after(now.seconds, seconds)));
        r
    }
}

/// A job that runs no longer than this many seconds is never taken for stale.
pub const MIN_STALE_SECONDS: i64 = 60;

/// After how many seconds a running job counts as stale.
pub open spec fn stale_seconds(seconds: i64) -> i64 {
    if seconds < MIN_STALE_SECONDS {
        MIN_STALE_SECONDS
    } else {
        seconds
    }
}

/// After how many seconds a running job counts as stale.
pub fn stale_after(seconds: i64) -> (r: i64)
    ensures
        r == stale_seconds(seconds),
{
    if seconds < MIN_STALE_SECONDS {
        MIN_STALE_SECONDS
    } else {
        seconds
    }
}

/// What a recovered job keeps of what it was.
pub open spec fn stale_note(j: Job, stale_after_seconds: i64, now: Seq<char>) -> Json {
    Json::Object(
        seq![
            (
                "message"@,
                Json::Text(
                    "running media segment job exceeded stale timeout and was recovered"@,
                ),
            ),
            ("previous_locked_by"@, json::opt_text_json(j.locked_by)),
            ("previous_status"@, Json::Text(j.status)),
            ("reason"@, Json::Text("stale_running_job"@)),
            ("recovered_at"@, Json::Text(now)),
            (
                "stale_after_seconds"@,
                crate::settings::whole_json(stale_after_seconds),
            ),
            ("started_at"@, json::opt_text_json(j.started_at)),
        ],
    )
}

/// Whether a job has been running since the cutoff or before. `started` is the
/// moment that its start time stands for.
pub open spec fn stale(j: Job, started: Option<(i64, u32)>, cutoff: (i64, u32)) -> bool {
    j.status == "running"@ && j.started_at is Some && started is Some && !later(started->0, cutoff)
}

/// A stale job after its recovery: it is queued again while attempts are left,
/// else it has failed.
pub open spec fn recovered(
    j: Job,
    stale_after_seconds: i64,
    now: Seq<char>,
    next: Seq<char>,
) -> Job {
    retried_or_failed(j, stale_note(j, stale_after_seconds, now), now, next)
}

/// The moment that a job's own start time stands for.
pub open spec fn own_start(j: Job) -> Option<(i64, u32)> {
    match j.started_at {
        Some(t) => timestamp_instant(t),
        None => None,
    }
}

/// Whether what the recovery of a job computes with is within the calendar: the
/// second, the cutoff, and the time of the next attempt where there is one.
pub open spec fn recovery_in_calendar(j: Job, now: i64, seconds: i64) -> bool {
    &&& outside::in_calendar(now as int)
    &&& outside::in_calendar(now - stale_seconds(seconds))
    &&& tried_again(j) ==> outside::in_calendar(now + consts::PROVIDER_JOB_RETRY_BACKOFF_SECONDS)
}

/// Whether a job is stale at a moment: it has been running for the given seconds
/// or longer. `started` is the moment that its start time stands for.
pub open spec fn stale_at(j: Job, started: Option<(i64, u32)>, now: Instant, seconds: i64) -> bool {
    stale(j, started, ((now.seconds - stale_seconds(seconds)) as i64, now.nanos))
}

/// A job after a recovery at a moment; `None` where it is not stale.
pub open spec fn recovery(
    j: Job,
    started: Option<(i64, u32)>,
    now: Instant,
    seconds: i64,
) -> Option<Job> {
    if stale_at(j, started, now, seconds) {
        Some(
            recovered(
                j,
                stale_seconds(seconds),
                outside::utc_text(now.seconds),
                outside::utc_text(
                    (now.seconds + consts::PROVIDER_JOB_RETRY_BACKOFF_SECONDS) as i64,
                ),
            ),
        )
    } else {
        None
    }
}

/// Recovers a job at the moment `now` where it is stale. `started` is the moment
/// that its start time stands for.
pub fn recover_job_started_at(
    job: MediaSegmentJobRecord,
    started: Option<Instant>,
    now: Instant,
    seconds: i64,
) -> (r: Option<MediaSegmentJobRecord>)
    requires
        recovery_in_calendar(job@, now.seconds, seconds),
    ensures
        opt_job(r) == recovery(job@, outside::instant_pair(started), now, seconds),
{
    if !text::str_eq(job.status.as_str(), "running") || job.started_at.is_none() {
        return None;
    }
    let from = match started {
        Some(t) => t,
        None => {
            return None;
        },
    };
    let stale_after_seconds: i64 = stale_after(seconds);
    let cutoff: i64 = now.seconds - stale_after_seconds;
    if from.seconds > cutoff || (from.seconds == cutoff && from.nanos > now.nanos) {
        return None;
    }
    let now_text = timestamp_after(now.seconds, 0);
    let next = if job.attempts < job.max_attempts {
        timestamp_after(now.seconds, consts::PROVIDER_JOB_RETRY_BACKOFF_SECONDS)
    } else {
        String::new()
    };
    let mut o: Vec<(String, JsonValue)> = Vec::new();
    o.push(
        (
            "message".to_owned(),
            json::text_value("running media segment job exceeded stale timeout and was recovered"),
        ),
    );
    o.push(("previous_locked_by".to_owned(), json::opt_text_value(&job.locked_by)));
    o.push(("previous_status".to_owned(), JsonValue::Text(job.status.clone())));
    o.push(("reason".to_owned(), json::text_value("stale_running_job")));
    o.push(("recovered_at".to_owned(), json::text_value(now_text.as_str())));
    o.push(
        ("stale_after_seconds".to_owned(), crate::settings::whole_value(stale_after_seconds)),
    );
    o.push(("started_at".to_owned(), json::opt_text_value(&job.started_at)));
    proof {
        json::lemma_view_object(o);
        assert(json::members_of(o@) =~= stale_note(
            job@,
            stale_after_seconds,
            now_text@,
        )->Object_0);
    }
    Some(queue_again_or_fail(job, JsonValue::Object(o), now_text, next))
}

/// Recovers a job at the moment `now` where it has been running for the given
/// seconds or longer by its own start time.
pub fn recover_stale_job(job: MediaSegmentJobRecord, now: Instant, seconds: i64) -> (r: Option<
    MediaSegmentJobRecord,
>)
    requires
        recovery_in_calendar(job@, now.seconds, seconds),
    ensures
        opt_job(r) == recovery(job@, own_start(job@), now, seconds),
{
    let started = match &job.started_at {
        Some(t) => parse_media_segment_job_timestamp(t.as_str()),
        None => None,
    };
    recover_job_started_at(job, started, now, seconds)
}

/// How many jobs a recovery touched.
#[derive(Debug, Clone, Copy, PartialEq, Eq, Structural)]
pub struct StaleMediaSegmentJobRecoverySummary {
    pub recovered: usize,
    pub requeued: usize,
    pub failed: usize,
}

/// Whether the counts of a recovery add up.
pub open spec fn recovery_adds_up(s: StaleMediaSegmentJobRecoverySummary) -> bool {
    s.recovered == s.requeued + s.failed
}

/// Counts a recovered job.
pub fn count_recovered_job(
    summary: StaleMediaSegmentJobRecoverySummary,
    job: &MediaSegmentJobRecord,
) -> (r: StaleMediaSegmentJobRecoverySummary)
    requires
        summary.recovered < usize::MAX,
        recovery_adds_up(summary),
    ensures
        r.recovered == summary.recovered + 1,
        r.failed == summary.failed + if job.status@ == "failed"@ {
            1int
        } else {
            0
        },
        recovery_adds_up(r),
{
    if text::str_eq(job.status.as_str(), "failed") {
        StaleMediaSegmentJobRecoverySummary {
            recovered: summary.recovered + 1,
            requeued: summary.requeued,
            failed: summary.failed + 1,
        }
    } else {
        StaleMediaSegmentJobRecoverySummary {
            recovered: summary.recovered + 1,
            requeued: summary.requeued + 1,
            failed: summary.failed,
        }
    }
}

pub proof fn lemma_statuses_differ()
    ensures
        "queued"@ != "running"@,
        "queued"@ != "succeeded"@,
        "queued"@ != "skipped"@,
        "queued"@ != "failed"@,
        "queued"@ != "cancelled"@,
        "running"@ != "succeeded"@,
        "running"@ != "skipped"@,
        "running"@ != "failed"@,
        "running"@ != "cancelled"@,
        "succeeded"@ != "skipped"@,
        "succeeded"@ != "failed"@,
        "succeeded"@ != "cancelled"@,
        "failed"@ != "cancelled"@,
        "skipped"@ != "cancelled"@,
{
    reveal_strlit("queued");
    reveal_strlit("running");
    reveal_strlit("succeeded");
    reveal_strlit("skipped");
    reveal_strlit("failed");
    reveal_strlit("cancelled");
    assert("succeeded"@.len() == 9);
    assert("skipped"@.len() == 7);
    assert("queued"@[0] == 'q');
    assert("failed"@[0] == 'f');
    assert("running"@[0] == 'r');
    assert("skipped"@[0] == 's');
    assert("succeeded"@[0] == 's');
    assert("cancelled"@[0] == 'c');
}

/// What holds of every stored job: its status is known, it is locked just while
/// it runs, it has a finish time just once it is done, and then no next attempt.
pub open spec fn job_sound(j: Job) -> bool {
    &&& normalize::is_job_status(j.status)
    &&& j.locked_by is Some <==> j.status == "running"@
    &&& j.finished_at is Some <==> normalize::terminal_status(j.status)
    &&& normalize::terminal_status(j.status) ==> j.next_attempt_at is None
}

/// A job is sound once it is queued, whatever was stored before.
pub proof fn queueing_keeps_jobs_sound(
    stored: Option<Job>,
    id: Seq<char>,
    job_type: Seq<char>,
    scope_type: Seq<char>,
    scope_id: Seq<char>,
    provider_kind: Seq<char>,
    priority: i64,
    max_attempts: i64,
    now: Seq<char>,
)
    requires
        stored is Some ==> job_sound(stored->0),
    ensures
        job_sound(
            queued(
                stored,
                id,
                job_type,
                scope_type,
                scope_id,
                provider_kind,
                priority,
                max_attempts,
                now,
            ),
        ),
{
    lemma_statuses_differ();
}

/// Every change of a job's status keeps it sound.
pub proof fn changes_keep_jobs_sound(
    j: Job,
    worker: Seq<char>,
    status: Seq<char>,
    error: Option<Json>,
    note: Json,
    reason: Option<Seq<char>>,
    stale_after_seconds: i64,
    now: Seq<char>,
    next: Seq<char>,
)
    requires
        job_sound(j),
    ensures
        claimable(j, true) ==> job_sound(claimed(j, worker, now)),
        normalize::terminal_status(status) ==> job_sound(finished(j, status, error, now)),
        job_sound(retried_or_failed(j, note, now, next)),
        cancelled(j, reason, now) matches Ok(c) ==> job_sound(c),
        retried(j, reason, now) matches Ok(r) ==> job_sound(r),
        job_sound(recovered(j, stale_after_seconds, now, next)),
{
    lemma_statuses_differ();
}

/// A job that is queued again after a failed attempt is due once its delay is over:
/// the backoff after the first attempt, and one backoff more after each other.
pub proof fn failed_attempts_wait_for_their_delay(j: Job, error: Json, now: i64)
    requires
        tried_again(j),
    ensures
        retried_at(j, error, now).status == "queued"@,
        retried_at(j, error, now).next_attempt_at == Some(
            outside::utc_text((now + retry_delay(j.attempts as int)) as i64),
        ),
        retry_delay(j.attempts as int) >= consts::PROVIDER_JOB_RETRY_BACKOFF_SECONDS,
        j.attempts >= 1 ==> retry_delay(j.attempts + 1) == retry_delay(j.attempts as int)
            + consts::PROVIDER_JOB_RETRY_BACKOFF_SECONDS,
{
}

/// A job that was taken at a second is stale just from the given seconds after it
/// on, and never within a minute. `at` is the time that it was taken at, as it
/// is stored.
pub proof fn taken_jobs_go_stale_in_their_time(
    j: Job,
    worker: Seq<char>,
    at: Seq<char>,
    taken: i64,
    now: Instant,
    seconds: i64,
)
    requires
        timestamp_instant(at) == Some((taken, 0u32)),
        recovery_in_calendar(claimed(j, worker, at), now.seconds, seconds),
    ensures
        ({
            let c = claimed(j, worker, at);
            &&& recovery(c, own_start(c), now, seconds) is Some <==> now.seconds - taken
                >= stale_seconds(seconds)
            &&& now.seconds - taken < MIN_STALE_SECONDS ==> recovery(c, own_start(c), now, seconds)
                is None
        }),
{
}

/// A cancelled job stays as it is whatever its worker reports afterwards.
pub proof fn cancellation_is_not_overwritten(
    j: Job,
    status: Seq<char>,
    error: Option<Json>,
    note: Json,
    now: Seq<char>,
    next: Seq<char>,
)
    requires
        j.status == "cancelled"@,
        status != "cancelled"@,
    ensures
        finished(j, status, error, now) == j,
        retried_or_failed(j, note, now, next) == j,
        !claimable(j, true),
{
    lemma_statuses_differ();
}

/// A job that succeeded is never cancelled, and one that runs is never retried
/// on request.
pub proof fn refused_requests_change_nothing(
    j: Job,
    reason: Option<Seq<char>>,
    error: Option<Json>,
    now: Seq<char>,
)
    ensures
        j.status == "succeeded"@ ==> cancelled(j, reason, now) is Err && finished(
            j,
            "cancelled"@,
            error,
            now,
        ) == j,
        j.status == "running"@ ==> retried(j, reason, now) is Err,
{
    lemma_statuses_differ();
}

/// A worker takes a job at most as often as its limit says: each claim counts
/// one attempt, and none is given once the limit is reached.
pub proof fn attempts_are_bounded(j: Job, worker: Seq<char>, now: Seq<char>, due: bool)
    requires
        claimable(j, due),
    ensures
        claimed(j, worker, now).attempts == j.attempts + 1,
        claimed(j, worker, now).attempts <= j.max_attempts,
        !claimable(claimed(j, worker, now), true),
{
    lemma_statuses_differ();
}

/// A failed attempt leads to another one while attempts are left, and to failure
/// once they are used up.
pub proof fn failed_attempts_end_in_failure(j: Job, note: Json, now: Seq<char>, next: Seq<char>)
    requires
        j.status == "running"@,
    ensures
        j.attempts < j.max_attempts ==> claimable(retried_or_failed(j, note, now, next), true),
        j.attempts >= j.max_attempts ==> retried_or_failed(j, note, now, next).status == "failed"@,
        retried_or_failed(j, note, now, next).attempts == j.attempts,
        retried_or_failed(j, note, now, next).error == Some(note),
{
}

/// Queueing the work of a running job again does not disturb the run.
pub proof fn queueing_does_not_disturb_a_run(
    j: Job,
    id: Seq<char>,
    priority: i64,
    max_attempts: i64,
    now: Seq<char>,
)
    requires
        j.status == "running"@,
    ensures
        ({
            let q = queued(
                Some(j),
                id,
                j.job_type,
                j.scope_type,
                j.scope_id,
                j.provider_kind,
                priority,
                max_attempts,
                now,
            );
            &&& q.status == j.status
            &&& q.locked_by == j.locked_by
            &&& q.attempts == j.attempts
            &&& q.started_at == j.started_at
        }),
{
}

/// A job that a worker has taken is not taken by another.
pub proof fn taken_jobs_are_not_taken_again(j: Job, worker: Seq<char>, now: Seq<char>, due: bool)
    ensures
        !claimable(claimed(j, worker, now), due),
{
    reveal_strlit("running");
    reveal_strlit("queued");
    assert("running"@.len() == 7 && "queued"@.len() == 6);
}

/// A job that does not run and may be tried at all can be taken once it is queued
/// again, on request or anew, whatever became of it before.
pub proof fn jobs_queued_again_can_be_taken(
    j: Job,
    reason: Option<Seq<char>>,
    priority: i64,
    max_attempts: i64,
    now: Seq<char>,
)
    requires
        j.status != "running"@,
        j.max_attempts >= 1,
    ensures
        retried(j, reason, now) matches Ok(k) && claimable(k, true),
        claimable(
            queued(
                Some(j),
                j.id,
                j.job_type,
                j.scope_type,
                j.scope_id,
                j.provider_kind,
                priority,
                max_attempts,
                now,
            ),
            true,
        ),
{
}

/// A worker takes a job just where it is queued, has attempts left and is due. It
/// then runs under the worker's name from now on, with one attempt more; nothing
/// else of it changes but that it is not finished and has no error.
pub proof fn taking_a_job(j: Job, worker: Seq<char>, now: Seq<char>, due: bool)
    ensures
        claimable(j, due) <==> j.status == "queued"@ && j.attempts < j.max_attempts && (
        j.next_attempt_at is None || due),
        j.attempts < j.max_attempts ==> {
            let k = claimed(j, worker, now);
            &&& k.status == "running"@
            &&& k.attempts == j.attempts + 1
            &&& k.locked_by == Some(worker)
            &&& k.started_at == Some(now)
            &&& k.finished_at is None
            &&& k.error is None
            &&& k.id == j.id && k.job_type == j.job_type && k.scope_type == j.scope_type
                && k.scope_id == j.scope_id && k.provider_kind == j.provider_kind
            &&& k.priority == j.priority && k.max_attempts == j.max_attempts
                && k.next_attempt_at == j.next_attempt_at
        },
{
}

/// A job is queued for the work that it is asked for, at the priority asked for
/// between nothing and ten thousand, and with at least one attempt. A running job
/// keeps its run; any other waits from now on with all its attempts.
pub proof fn queueing_a_job(
    stored: Option<Job>,
    id: Seq<char>,
    job_type: Seq<char>,
    scope_type: Seq<char>,
    scope_id: Seq<char>,
    provider_kind: Seq<char>,
    priority: i64,
    max_attempts: i64,
    now: Seq<char>,
)
    ensures
        ({
            let k = queued(
                stored,
                id,
                job_type,
                scope_type,
                scope_id,
                provider_kind,
                priority,
                max_attempts,
                now,
            );
            &&& k.job_type == job_type && k.scope_type == scope_type && k.scope_id == scope_id
                && k.provider_kind == provider_kind
            &&& 0 <= priority <= 10_000 ==> k.priority == priority
            &&& priority < 0 ==> k.priority == 0
            &&& priority > 10_000 ==> k.priority == 10_000
            &&& max_attempts >= 1 ==> k.max_attempts == max_attempts
            &&& max_attempts < 1 ==> k.max_attempts == 1
            &&& stored is Some && stored->0.status == "running"@ ==> {
                let j = stored->0;
                &&& k.id == j.id && k.status == j.status && k.attempts == j.attempts
                &&& k.next_attempt_at == j.next_attempt_at && k.locked_by == j.locked_by
                &&& k.started_at == j.started_at && k.finished_at == j.finished_at && k.error
                    == j.error
            }
            &&& stored is None || stored->0.status != "running"@ ==> {
                &&& k.id == id && k.status == "queued"@ && k.attempts == 0
                &&& k.next_attempt_at == Some(now) && k.locked_by is None
                &&& k.started_at is None && k.finished_at is None && k.error is None
            }
        }),
{
}

/// A job that is finished has its final status and its error from now on, is free
/// of its worker and is not tried again; how often it was tried stays. A cancelled
/// job is only cancelled again, and one that succeeded is not cancelled.
pub proof fn finishing_a_job(j: Job, status: Seq<char>, error: Option<Json>, now: Seq<char>)
    ensures
        ({
            let k = finished(j, status, error, now);
            let refused = if status == "cancelled"@ {
                j.status == "succeeded"@
            } else {
                j.status == "cancelled"@
            };
            &&& refused ==> k == j
            &&& !refused ==> {
                &&& k.status == status && k.error == error && k.finished_at == Some(now)
                &&& k.locked_by is None && k.next_attempt_at is None
            }
            &&& k.id == j.id && k.job_type == j.job_type && k.scope_type == j.scope_type
                && k.scope_id == j.scope_id && k.provider_kind == j.provider_kind
            &&& k.priority == j.priority && k.attempts == j.attempts && k.max_attempts
                == j.max_attempts && k.started_at == j.started_at
        }),
{
}

/// A running job whose attempt failed waits five minutes for each attempt it has
/// had, while it has attempts left; else it has failed for good. Either way it
/// keeps the error and is free of its worker. A job that does not run stays as it
/// is.
pub proof fn failing_an_attempt(j: Job, error: Json, now: i64)
    requires
        j.attempts <= 1_000_000,
        -1_000_000_000_000 <= now <= 1_000_000_000_000,
    ensures
        ({
            let k = retried_at(j, error, now);
            &&& j.status != "running"@ ==> k == j
            &&& j.status == "running"@ ==> {
                &&& k.error == Some(error)
                &&& k.locked_by is None
                &&& j.attempts < j.max_attempts ==> {
                    let tries = if j.attempts < 1 {
                        1
                    } else {
                        j.attempts as int
                    };
                    &&& k.status == "queued"@
                    &&& k.next_attempt_at == Some(outside::utc_text((now + 300 * tries) as i64))
                    &&& k.finished_at is None
                }
                &&& j.attempts >= j.max_attempts ==> {
                    &&& k.status == "failed"@
                    &&& k.next_attempt_at is None
                    &&& k.finished_at == Some(outside::utc_text(now))
                }
            }
            &&& k.id == j.id && k.job_type == j.job_type && k.scope_type == j.scope_type
                && k.scope_id == j.scope_id && k.provider_kind == j.provider_kind
            &&& k.priority == j.priority && k.attempts == j.attempts && k.max_attempts
                == j.max_attempts && k.started_at == j.started_at
        }),
{
}

/// A job is cancelled on request unless it succeeded; one that is cancelled stays
/// as it is. It then says when, what it was before and why.
pub proof fn cancelling_a_job(j: Job, reason: Option<Seq<char>>, now: Seq<char>)
    ensures
        j.status == "succeeded"@ ==> cancelled(j, reason, now) == Err::<Job, Seq<char>>(
            "succeeded media segment job cannot be cancelled"@,
        ),
        j.status == "cancelled"@ ==> cancelled(j, reason, now) == Ok::<Job, Seq<char>>(j),
        j.status != "succeeded"@ && j.status != "cancelled"@ ==> {
            &&& cancelled(j, reason, now) is Ok
            &&& ({
                let k = cancelled(j, reason, now)->Ok_0;
                &&& k.status == "cancelled"@
                &&& k.locked_by is None && k.next_attempt_at is None
                &&& k.finished_at == Some(now)
                &&& k.id == j.id && k.attempts == j.attempts && k.max_attempts == j.max_attempts
                &&& k.error is Some
                &&& json::json_get(k.error->0, "previous_status"@) == Some(Json::Text(j.status))
                &&& json::json_get(k.error->0, "cancelled_at"@) == Some(Json::Text(now))
                &&& json::json_get(k.error->0, "reason"@) == Some(Json::Text("admin_cancelled"@))
                &&& reason is None ==> json::json_get(k.error->0, "message"@) == Some(
                    Json::Text("cancelled by admin"@),
                )
                &&& reason is Some && 0 < text::trim_seq(reason->0).len() <= 500 ==> json::json_get(
                    k.error->0,
                    "message"@,
                ) == Some(Json::Text(text::trim_seq(reason->0)))
            })
        },
{
    lemma_statuses_differ();
    lemma_note_names_differ();
    let m = cancellation_note(j, reason, now)->Object_0;
    json::lemma_lookup_at(m, "cancelled_at"@, 0);
    json::lemma_lookup_at(m, "message"@, 1);
    json::lemma_lookup_at(m, "previous_status"@, 2);
    json::lemma_lookup_at(m, "reason"@, 3);
}

proof fn lemma_note_names_differ()
    ensures
        "cancelled_at"@ != "message"@,
        "cancelled_at"@ != "previous_status"@,
        "cancelled_at"@ != "reason"@,
        "cancelled_at"@ != "previous_error"@,
        "cancelled_at"@ != "retried_at"@,
        "cancelled_at"@ != "previous_locked_by"@,
        "cancelled_at"@ != "recovered_at"@,
        "cancelled_at"@ != "stale_after_seconds"@,
        "cancelled_at"@ != "started_at"@,
        "message"@ != "previous_status"@,
        "message"@ != "reason"@,
        "message"@ != "previous_error"@,
        "message"@ != "retried_at"@,
        "message"@ != "previous_locked_by"@,
        "message"@ != "recovered_at"@,
        "message"@ != "stale_after_seconds"@,
        "message"@ != "started_at"@,
        "previous_status"@ != "reason"@,
        "previous_status"@ != "previous_error"@,
        "previous_status"@ != "retried_at"@,
        "previous_status"@ != "previous_locked_by"@,
        "previous_status"@ != "recovered_at"@,
        "previous_status"@ != "stale_after_seconds"@,
        "previous_status"@ != "started_at"@,
        "reason"@ != "previous_error"@,
        "reason"@ != "retried_at"@,
        "reason"@ != "previous_locked_by"@,
        "reason"@ != "recovered_at"@,
        "reason"@ != "stale_after_seconds"@,
        "reason"@ != "started_at"@,
        "previous_error"@ != "retried_at"@,
        "previous_error"@ != "previous_locked_by"@,
        "previous_error"@ != "recovered_at"@,
        "previous_error"@ != "stale_after_seconds"@,
        "previous_error"@ != "started_at"@,
        "retried_at"@ != "previous_locked_by"@,
        "retried_at"@ != "recovered_at"@,
        "retried_at"@ != "stale_after_seconds"@,
        "retried_at"@ != "started_at"@,
        "previous_locked_by"@ != "recovered_at"@,
        "previous_locked_by"@ != "stale_after_seconds"@,
        "previous_locked_by"@ != "started_at"@,
        "recovered_at"@ != "stale_after_seconds"@,
        "recovered_at"@ != "started_at"@,
        "stale_after_seconds"@ != "started_at"@,
{
    reveal_strlit("cancelled_at");
    reveal_strlit("message");
    reveal_strlit("previous_status");
    reveal_strlit("reason");
    reveal_strlit("previous_error");
    reveal_strlit("retried_at");
    reveal_strlit("previous_locked_by");
    reveal_strlit("recovered_at");
    reveal_strlit("stale_after_seconds");
    reveal_strlit("started_at");
    assert("cancelled_at"@.len() == 12);
    assert("message"@.len() == 7);
    assert("previous_status"@.len() == 15);
    assert("reason"@.len() == 6);
    assert("previous_error"@.len() == 14);
    assert("retried_at"@.len() == 10);
    assert("previous_locked_by"@.len() == 18);
    assert("recovered_at"@.len() == 12);
    assert("stale_after_seconds"@.len() == 19);
    assert("started_at"@.len() == 10);
    assert("cancelled_at"@[0] == 'c');
    assert("retried_at"@[0] == 'r');
    assert("recovered_at"@[0] == 'r');
    assert("started_at"@[0] == 's');
}

/// A job that does not run is queued again on request with all its attempts, and
/// says when, what it was before and why; one that runs is not.
pub proof fn retrying_a_job(j: Job, reason: Option<Seq<char>>, now: Seq<char>)
    ensures
        j.status == "running"@ ==> retried(j, reason, now) == Err::<Job, Seq<char>>(
            "running media segment job cannot be retried"@,
        ),
        j.status != "running"@ ==> {
            &&& retried(j, reason, now) is Ok
            &&& ({
                let k = retried(j, reason, now)->Ok_0;
                &&& k.status == "queued"@ && k.attempts == 0 && k.next_attempt_at == Some(now)
                &&& k.locked_by is None && k.started_at is None && k.finished_at is None
                &&& k.id == j.id && k.job_type == j.job_type && k.scope_type == j.scope_type
                    && k.scope_id == j.scope_id && k.provider_kind == j.provider_kind
                &&& k.priority == j.priority && k.max_attempts == j.max_attempts
                &&& k.error is Some
                &&& json::json_get(k.error->0, "previous_status"@) == Some(Json::Text(j.status))
                &&& json::json_get(k.error->0, "previous_error"@) == Some(
                    match j.error {
                        Some(e) => e,
                        None => Json::Null,
                    },
                )
                &&& json::json_get(k.error->0, "retried_at"@) == Some(Json::Text(now))
                &&& json::json_get(k.error->0, "reason"@) == Some(Json::Text("admin_retry"@))
                &&& reason is None ==> json::json_get(k.error->0, "message"@) == Some(
                    Json::Text("retry requested by admin"@),
                )
            })
        },
{
    lemma_note_names_differ();
    let m = retry_note(j, reason, now)->Object_0;
    json::lemma_lookup_at(m, "message"@, 0);
    json::lemma_lookup_at(m, "previous_error"@, 1);
    json::lemma_lookup_at(m, "previous_status"@, 2);
    json::lemma_lookup_at(m, "reason"@, 3);
    json::lemma_lookup_at(m, "retried_at"@, 4);
}

/// A running job is recovered just where it started the given seconds ago or
/// earlier, and at least a minute. It then waits five minutes for its next attempt
/// while it has attempts left, and has failed otherwise; it is free of its worker
/// and says whose it was.
pub proof fn recovering_a_job(j: Job, started: Option<(i64, u32)>, now: Instant, seconds: i64)
    requires
        0 <= now.seconds <= 1_000_000_000_000,
        seconds <= 1_000_000_000_000,
    ensures
        ({
            let wait = if seconds < 60 {
                60
            } else {
                seconds as int
            };
            let r = recovery(j, started, now, seconds);
            let (second, fraction) = started->0;
            &&& r is Some <==> j.status == "running"@ && j.started_at is Some && started is Some && (
            second + wait < now.seconds || (second + wait == now.seconds && fraction
                <= now.nanos))
            &&& r is Some ==> {
                let k = r->0;
                &&& k.locked_by is None
                &&& j.attempts < j.max_attempts ==> k.status == "queued"@ && k.next_attempt_at
                    == Some(outside::utc_text((now.seconds + 300) as i64)) && k.finished_at is None
                &&& j.attempts >= j.max_attempts ==> k.status == "failed"@ && k.next_attempt_at
                    is None && k.finished_at == Some(outside::utc_text(now.seconds))
                &&& k.id == j.id && k.attempts == j.attempts && k.max_attempts == j.max_attempts
                    && k.started_at == j.started_at && k.priority == j.priority
                &&& k.error is Some
                &&& json::json_get(k.error->0, "reason"@) == Some(Json::Text("stale_running_job"@))
                &&& json::json_get(k.error->0, "previous_status"@) == Some(Json::Text("running"@))
                &&& json::json_get(k.error->0, "previous_locked_by"@) == Some(
                    match j.locked_by {
                        Some(w) => Json::Text(w),
                        None => Json::Null,
                    },
                )
                &&& json::json_get(k.error->0, "stale_after_seconds"@) == Some(
                    Json::Number(json::JsonNumber::Unsigned(wait as u64)),
                )
            }
        }),
{
    lemma_note_names_differ();
    let m = stale_note(
        j,
        stale_seconds(seconds),
        outside::utc_text(now.seconds),
    )->Object_0;
    json::lemma_lookup_at(m, "previous_locked_by"@, 1);
    json::lemma_lookup_at(m, "previous_status"@, 2);
    json::lemma_lookup_at(m, "reason"@, 3);
    json::lemma_lookup_at(m, "stale_after_seconds"@, 5);
}

/// What a job does: fingerprints and the visual detector are for one file and their
/// own provider, the audio detector for a season; a refresh is for one file, of a
/// built-in provider under its name and of an installed one under any other.
pub proof fn jobs_do_what_they_name(
    job_type: Seq<char>,
    scope_type: Seq<char>,
    provider: Seq<char>,
)
    ensures
        ({
            let kind = kind_of(job_type, scope_type, provider);
            let of_file = scope_type == "media_file"@;
            let audio = provider == "local_audio_recurring"@;
            let visual = provider == "local_visual_recurring"@;
            let builtin = provider == "theintrodb"@ || provider == "aniskip"@;
            &&& kind == JobKind::AudioFingerprint <==> job_type == "audio_fingerprint"@ && of_file
                && audio
            &&& kind == JobKind::AudioDetector <==> job_type == "local_detector"@ && scope_type
                == "season"@ && audio
            &&& kind == JobKind::FrameHash <==> job_type == "video_frame_hash"@ && of_file && visual
            &&& kind == JobKind::VisualDetector <==> job_type == "local_detector"@ && of_file
                && visual
            &&& kind == JobKind::BuiltinRefresh <==> job_type == "provider_refresh"@ && of_file
                && builtin
            &&& kind == JobKind::MarketplaceRefresh <==> job_type == "provider_refresh"@ && of_file
                && !builtin
        }),
{
    lemma_job_types_differ();
    reveal_strlit("media_file");
    reveal_strlit("season");
    reveal_strlit("local_audio_recurring");
    reveal_strlit("local_visual_recurring");
    assert("media_file"@.len() == 10 && "season"@.len() == 6);
    assert("local_audio_recurring"@.len() == 21 && "local_visual_recurring"@.len() == 22);
}

proof fn lemma_job_types_differ()
    ensures
        "audio_fingerprint"@ != "local_detector"@,
        "audio_fingerprint"@ != "video_frame_hash"@,
        "audio_fingerprint"@ != "provider_refresh"@,
        "local_detector"@ != "video_frame_hash"@,
        "local_detector"@ != "provider_refresh"@,
        "video_frame_hash"@ != "provider_refresh"@,
{
    reveal_strlit("audio_fingerprint");
    reveal_strlit("local_detector");
    reveal_strlit("video_frame_hash");
    reveal_strlit("provider_refresh");
    assert("audio_fingerprint"@.len() == 17);
    assert("local_detector"@.len() == 14);
    assert("video_frame_hash"@.len() == 16);
    assert("provider_refresh"@.len() == 16);
    assert("video_frame_hash"@[0] == 'v');
    assert("provider_refresh"@[0] == 'p');
}

/// A request queues the job that it names, but a refresh of an installed provider
/// only where such are allowed, and not under a name of the library's own.
pub proof fn requests_queue_what_they_name(
    job_type: Seq<char>,
    scope_type: Seq<char>,
    provider: Seq<char>,
    allow_marketplace: bool,
)
    ensures
        ({
            let kind = kind_of(job_type, scope_type, provider);
            let asked = queueable_kind(job_type, scope_type, provider, allow_marketplace);
            let own = provider == "theintrodb"@ || provider == "aniskip"@ || provider
                == "local_audio_recurring"@ || provider == "local_visual_recurring"@ || provider
                == "chapter"@;
            &&& asked is Some ==> asked == Some(kind)
            &&& kind == JobKind::Unsupported ==> asked is None
            &&& kind == JobKind::MarketplaceRefresh ==> (asked is Some <==> allow_marketplace
                && !own)
            &&& kind != JobKind::Unsupported && kind != JobKind::MarketplaceRefresh ==> asked
                == Some(kind)
        }),
{
}

/// Jobs that differ in their type, their scope or their provider have different
/// texts for their ids; the case of the provider does not matter.
pub proof fn job_ids_rest_on_the_work(
    job_type: Seq<char>,
    scope_type: Seq<char>,
    scope_id: Seq<char>,
    provider: Seq<char>,
    other: Seq<char>,
)
    ensures
        ({
            let key = job_key(job_type, scope_type, scope_id, provider);
            &&& other != job_type ==> key != job_key(other, scope_type, scope_id, provider)
            &&& other != scope_type ==> key != job_key(job_type, other, scope_id, provider)
            &&& other != scope_id ==> key != job_key(job_type, scope_type, other, provider)
            &&& text::lower_seq(text::trim_seq(other)) != text::lower_seq(text::trim_seq(provider))
                ==> key != job_key(job_type, scope_type, scope_id, other)
            &&& text::lower_seq(text::trim_seq(other)) == text::lower_seq(text::trim_seq(provider))
                ==> key == job_key(job_type, scope_type, scope_id, other)
        }),
{
    let c = ":"@;
    let p = text::lower_seq(text::trim_seq(provider));
    let h0 = "media_segment_job:"@;
    let h1 = h0 + job_type + c;
    let h2 = h1 + scope_type + c;
    let h3 = h2 + scope_id + c;
    if other != job_type {
        text::different_tails_stay_different(h0, job_type, other);
        lemma_rest_keeps_apart(h0 + job_type, h0 + other, c, scope_type);
        lemma_rest_keeps_apart(
            h0 + job_type + c + scope_type,
            h0 + other + c + scope_type,
            c,
            scope_id,
        );
        lemma_rest_keeps_apart(
            h0 + job_type + c + scope_type + c + scope_id,
            h0 + other + c + scope_type + c + scope_id,
            c,
            p,
        );
    }
    if other != scope_type {
        text::different_tails_stay_different(h1, scope_type, other);
        lemma_rest_keeps_apart(h1 + scope_type, h1 + other, c, scope_id);
        lemma_rest_keeps_apart(h1 + scope_type + c + scope_id, h1 + other + c + scope_id, c, p);
    }
    if other != scope_id {
        text::different_tails_stay_different(h2, scope_id, other);
        lemma_rest_keeps_apart(h2 + scope_id, h2 + other, c, p);
    }
    if text::lower_seq(text::trim_seq(other)) != p {
        text::different_tails_stay_different(h3, p, text::lower_seq(text::trim_seq(other)));
    }
}

proof fn lemma_rest_keeps_apart(a: Seq<char>, b: Seq<char>, x: Seq<char>, y: Seq<char>)
    requires
        a != b,
    ensures
        a + x + y != b + x + y,
{
    text::different_heads_stay_different(a, b, x);
    text::different_heads_stay_different(a + x, b + x, y);
}

/// The priority of a job is the one asked for between nothing and ten thousand.
pub proof fn priorities_are_bounded(priority: Option<i64>, default: int)
    ensures
        0 <= priority_of(priority, default) <= 10_000,
        priority is Some && 0 <= priority->0 <= 10_000 ==> priority_of(priority, default)
            == priority->0,
        priority is Some && priority->0 > 10_000 ==> priority_of(priority, default) == 10_000,
        priority is None && 0 <= default <= 10_000 ==> priority_of(priority, default) == default,
{
}

/// A stored time is read as RFC 3339 before any other form, then with an offset,
/// then as UTC; a text without characters is no time.
pub proof fn rfc3339_is_read_first(
    t: Seq<char>,
    a: Option<(i64, u32)>,
    b: Option<(i64, u32)>,
    c: Option<(i64, u32)>,
    d: Option<(i64, u32)>,
)
    ensures
        t.len() == 0 ==> timestamp_choice(t, a, b, c, d) is None,
        t.len() > 0 && a is Some ==> timestamp_choice(t, a, b, c, d) == a,
        t.len() > 0 && a is None && b is Some ==> timestamp_choice(t, a, b, c, d) == b,
        t.len() > 0 && a is None && b is None && c is Some ==> timestamp_choice(t, a, b, c, d)
            == c,
        t.len() > 0 && a is None && b is None && c is None ==> timestamp_choice(t, a, b, c, d)
            == d,
{
}

/// Of two moments the later one has the greater second, or in one second the
/// greater fraction.
pub proof fn moments_are_ordered(a: (i64, u32), b: (i64, u32))
    ensures
        a.0 > b.0 ==> later(a, b),
        a.0 < b.0 ==> !later(a, b),
        a.0 == b.0 ==> (later(a, b) <==> a.1 > b.1),
{
}

/// A request to queue a job is taken where it names the job, its scope and its provider,
/// in their normal forms and at priority a hundred where it names none.
pub proof fn requests_to_queue(
    request: MediaSegmentJobEnqueueRequest,
    r: Result<NormalizedMediaSegmentJobEnqueueRequest, SegmentError>,
)
    requires
        call_ensures(normalize_media_segment_job_enqueue_request, (request,), r),
    ensures
        r is Ok <==> text::trim_seq(request.job_type@).len() > 0 && text::trim_seq(
            request.scope_type@,
        ).len() > 0 && text::trim_seq(request.scope_id@).len() > 0 && text::trim_seq(
            request.provider_kind@,
        ).len() > 0,
        r is Ok ==> {
            let n = r->Ok_0;
            &&& n.job_type@ == text::snake_seq(request.job_type@)
            &&& n.scope_type@ == text::snake_seq(request.scope_type@)
            &&& n.scope_id@ == text::trim_seq(request.scope_id@)
            &&& n.provider_kind@ == text::snake_seq(request.provider_kind@)
            &&& request.priority is None ==> n.priority == 100
            &&& request.priority is Some && 0 <= request.priority->0 <= 10_000 ==> n.priority
                == request.priority->0
        },
{
}

/// Each recovered job is counted, as failed where it has failed and as queued again
/// otherwise.
pub proof fn recovered_jobs_are_counted(
    summary: StaleMediaSegmentJobRecoverySummary,
    job: &MediaSegmentJobRecord,
    r: StaleMediaSegmentJobRecoverySummary,
)
    requires
        summary.recovered == summary.requeued + summary.failed,
        call_ensures(count_recovered_job, (summary, job), r),
    ensures
        r.recovered == summary.recovered + 1,
        job.status@ == "failed"@ ==> r.failed == summary.failed + 1 && r.requeued
            == summary.requeued,
        job.status@ != "failed"@ ==> r.failed == summary.failed && r.requeued == summary.requeued
            + 1,
{
}

/// A request to queue a job is refused by the first field that has no text.
pub proof fn refusals_to_queue(request: MediaSegmentJobEnqueueRequest)
    ensures
        ({
            let blank = |t: Seq<char>| text::trim_seq(t).len() == 0;
            let why = enqueue_refusal(request);
            let a = blank(request.job_type@);
            let b = blank(request.scope_type@);
            let c = blank(request.scope_id@);
            let d = blank(request.provider_kind@);
            &&& a ==> why == Some("job_type"@ + " is required"@)
            &&& !a && b ==> why == Some("scope_type"@ + " is required"@)
            &&& !a && !b && c ==> why == Some("scope_id"@ + " is required"@)
            &&& !a && !b && !c && d ==> why == Some("provider_kind"@ + " is required"@)
            &&& !a && !b && !c && !d ==> why is None
        }),
{
}

/// A recovered job tells when it was recovered, when it had started and what happened.
pub proof fn recovered_jobs_tell_their_story(j: Job, seconds: i64, now: Seq<char>)
    ensures
        ({
            let n = stale_note(j, seconds, now);
            &&& json::json_get(n, "recovered_at"@) == Some(Json::Text(now))
            &&& json::json_get(n, "started_at"@) == Some(
                match j.started_at {
                    Some(t) => Json::Text(t),
                    None => Json::Null,
                },
            )
            &&& json::json_get(n, "message"@) == Some(
                Json::Text(
                    "running media segment job exceeded stale timeout and was recovered"@,
                ),
            )
        }),
{
    lemma_note_names_differ();
    let m = stale_note(j, seconds, now)->Object_0;
    json::lemma_lookup_at(m, "message"@, 0);
    json::lemma_lookup_at(m, "recovered_at"@, 4);
    json::lemma_lookup_at(m, "started_at"@, 6);
}

/// The text that a job's id is made from names the job, its scope and its provider in this
/// order.
pub proof fn job_keys_name_the_work(
    job_type: Seq<char>,
    scope_type: Seq<char>,
    scope_id: Seq<char>,
    provider: Seq<char>,
)
    ensures
        job_key(job_type, scope_type, scope_id, provider) == "media_segment_job:"@ + job_type + ":"@
            + scope_type + ":"@ + scope_id + ":"@ + text::lower_seq(text::trim_seq(provider)),
{
}

} // verus!
