//! The worker: one pass recovers stale jobs, queues what is due and runs jobs
//! until its batch, its time or the work runs out.

use vstd::prelude::*;
use crate::analysis;
use crate::error::opt_text;
use crate::jobs::StaleMediaSegmentJobRecoverySummary;
use crate::runs::{BuiltinProviderRefreshOutcome, BuiltinProviderRefreshSummary};
use crate::text;

verus! {

/// What a search for due work queued.
#[derive(Debug, Clone, Copy, Default, PartialEq, Eq, Structural)]
pub struct MediaSegmentProviderEnqueueSummary {
    pub providers_seen: usize,
    pub files_seen: usize,
    pub jobs_queued: usize,
    pub jobs_failed: usize,
}

/// What one pass of the worker did.
#[derive(Debug, Clone, Copy, Default, PartialEq, Eq, Structural)]
pub struct MediaSegmentWorkerIterationSummary {
    pub enqueue: MediaSegmentProviderEnqueueSummary,
    pub stale_jobs_recovered: usize,
    pub stale_jobs_requeued: usize,
    pub stale_jobs_failed: usize,
    pub runtime_budget_seconds: u64,
    pub runtime_elapsed_ms: u64,
    pub runtime_budget_exhausted: bool,
    pub jobs_run: usize,
    pub jobs_succeeded: usize,
    pub jobs_skipped: usize,
    pub jobs_requeued: usize,
    pub jobs_failed: usize,
    pub jobs_cancelled: usize,
}

/// Counts a provider with the files or seasons that are due for it.
pub fn count_due(summary: &mut MediaSegmentProviderEnqueueSummary, files: usize)
    requires
        old(summary).providers_seen < usize::MAX,
        old(summary).files_seen + files <= usize::MAX,
    ensures
        *final(summary) == (MediaSegmentProviderEnqueueSummary {
            providers_seen: (old(summary).providers_seen + 1) as usize,
            files_seen: (old(summary).files_seen + files) as usize,
            ..*old(summary)
        }),
{
    summary.providers_seen = summary.providers_seen + 1;
    summary.files_seen = summary.files_seen + files;
}

/// Counts one attempt to queue due work.
pub fn count_enqueue(summary: &mut MediaSegmentProviderEnqueueSummary, queued: bool)
    requires
        old(summary).jobs_queued < usize::MAX,
        old(summary).jobs_failed < usize::MAX,
    ensures
        final(summary).providers_seen == old(summary).providers_seen,
        final(summary).files_seen == old(summary).files_seen,
        final(summary).jobs_queued == old(summary).jobs_queued + if queued {
            1int
        } else {
            0
        },
        final(summary).jobs_failed == old(summary).jobs_failed + if queued {
            0int
        } else {
            1
        },
{
    if queued {
        summary.jobs_queued = summary.jobs_queued + 1;
    } else {
        summary.jobs_failed = summary.jobs_failed + 1;
    }
}

/// A search for due work looks for at least one file.
pub fn due_batch_limit(limit: usize) -> (r: usize)
    ensures
        r == if limit == 0 {
            1
        } else {
            limit
        },
{
    if limit == 0 {
        1
    } else {
        limit
    }
}

/// How many episodes a search may list behind the films that it found. It lists
/// none where it asks for none or where the films fill the batch.
pub fn due_episode_limit(asks_for_episodes: bool, batch_limit: usize, films: usize) -> (r: Option<
    usize,
>)
    ensures
        r == if asks_for_episodes && films < batch_limit {
            Some((batch_limit - films) as usize)
        } else {
            None
        },
{
    if asks_for_episodes && films < batch_limit {
        Some(batch_limit - films)
    } else {
        None
    }
}

/// A search that lists no more episodes than it may finds no more files than its
/// batch has room for, and none of them twice.
pub proof fn due_files_stay_within_the_batch(
    films: Seq<Seq<char>>,
    episodes: Seq<Seq<char>>,
    batch_limit: usize,
)
    requires
        films.len() + episodes.len() <= batch_limit,
    ensures
        analysis::first_ids(films + episodes).len() <= batch_limit,
        analysis::first_ids(films + episodes).no_duplicates(),
{
    analysis::first_ids_keep_each_id_once(films + episodes);
    lemma_first_ids_len(films + episodes);
}

proof fn lemma_first_ids_len(ids: Seq<Seq<char>>)
    ensures
        analysis::first_ids(ids).len() <= ids.len(),
    decreases ids.len(),
{
    if ids.len() > 0 {
        lemma_first_ids_len(ids.drop_last());
    }
}

/// What the searches of one pass queued, each by itself.
pub struct DueWork {
    pub builtin: MediaSegmentProviderEnqueueSummary,
    pub marketplace: MediaSegmentProviderEnqueueSummary,
    pub audio_fingerprint: MediaSegmentProviderEnqueueSummary,
    pub audio_detector: MediaSegmentProviderEnqueueSummary,
    pub frame_hash: MediaSegmentProviderEnqueueSummary,
    pub visual_detector: MediaSegmentProviderEnqueueSummary,
}

/// The providers that a pass saw. A local detector has two searches, of which
/// the second counts only where the first saw no provider.
pub open spec fn providers_seen(w: DueWork) -> int {
    w.builtin.providers_seen + w.marketplace.providers_seen + w.audio_fingerprint.providers_seen + (
    if w.audio_fingerprint.providers_seen == 0 {
        w.audio_detector.providers_seen as int
    } else {
        0
    }) + w.frame_hash.providers_seen + (if w.frame_hash.providers_seen == 0 {
        w.visual_detector.providers_seen as int
    } else {
        0
    })
}

pub open spec fn files_seen(w: DueWork) -> int {
    w.builtin.files_seen + w.marketplace.files_seen + w.audio_fingerprint.files_seen
        + w.audio_detector.files_seen + w.frame_hash.files_seen + w.visual_detector.files_seen
}

pub open spec fn jobs_queued(w: DueWork) -> int {
    w.builtin.jobs_queued + w.marketplace.jobs_queued + w.audio_fingerprint.jobs_queued
        + w.audio_detector.jobs_queued + w.frame_hash.jobs_queued + w.visual_detector.jobs_queued
}

pub open spec fn jobs_failed(w: DueWork) -> int {
    w.builtin.jobs_failed + w.marketplace.jobs_failed + w.audio_fingerprint.jobs_failed
        + w.audio_detector.jobs_failed + w.frame_hash.jobs_failed + w.visual_detector.jobs_failed
}

/// The beginning of a pass: what was recovered and queued, before any job runs.
pub fn begin_worker_iteration(
    recovery: StaleMediaSegmentJobRecoverySummary,
    work: &DueWork,
    max_runtime_seconds: u64,
) -> (r: MediaSegmentWorkerIterationSummary)
    requires
        providers_seen(*work) <= usize::MAX,
        files_seen(*work) <= usize::MAX,
        jobs_queued(*work) <= usize::MAX,
        jobs_failed(*work) <= usize::MAX,
    ensures
        r.enqueue.providers_seen == providers_seen(*work),
        r.enqueue.files_seen == files_seen(*work),
        r.enqueue.jobs_queued == jobs_queued(*work),
        r.enqueue.jobs_failed == jobs_failed(*work),
        r.stale_jobs_recovered == recovery.recovered,
        r.stale_jobs_requeued == recovery.requeued,
        r.stale_jobs_failed == recovery.failed,
        r.runtime_budget_seconds == max_runtime_seconds,
        r.runtime_elapsed_ms == 0,
        !r.runtime_budget_exhausted,
        r.jobs_run == 0,
        runs_add_up(r),
{
    let w = work;
    let audio_providers: usize = if w.audio_fingerprint.providers_seen == 0 {
        w.audio_detector.providers_seen
    } else {
        0
    };
    let visual_providers: usize = if w.frame_hash.providers_seen == 0 {
        w.visual_detector.providers_seen
    } else {
        0
    };
    MediaSegmentWorkerIterationSummary {
        enqueue: MediaSegmentProviderEnqueueSummary {
            providers_seen: w.builtin.providers_seen + w.marketplace.providers_seen
                + w.audio_fingerprint.providers_seen + audio_providers
                + w.frame_hash.providers_seen + visual_providers,
            files_seen: w.builtin.files_seen + w.marketplace.files_seen
                + w.audio_fingerprint.files_seen + w.audio_detector.files_seen
                + w.frame_hash.files_seen + w.visual_detector.files_seen,
            jobs_queued: w.builtin.jobs_queued + w.marketplace.jobs_queued
                + w.audio_fingerprint.jobs_queued + w.audio_detector.jobs_queued
                + w.frame_hash.jobs_queued + w.visual_detector.jobs_queued,
            jobs_failed: w.builtin.jobs_failed + w.marketplace.jobs_failed
                + w.audio_fingerprint.jobs_failed + w.audio_detector.jobs_failed
                + w.frame_hash.jobs_failed + w.visual_detector.jobs_failed,
        },
        stale_jobs_recovered: recovery.recovered,
        stale_jobs_requeued: recovery.requeued,
        stale_jobs_failed: recovery.failed,
        runtime_budget_seconds: max_runtime_seconds,
        runtime_elapsed_ms: 0,
        runtime_budget_exhausted: false,
        jobs_run: 0,
        jobs_succeeded: 0,
        jobs_skipped: 0,
        jobs_requeued: 0,
        jobs_failed: 0,
        jobs_cancelled: 0,
    }
}

/// What a worker does next.
#[derive(Debug, Clone, Copy, PartialEq, Eq, Structural)]
pub enum WorkerStep {
    /// Run the next job.
    Run,
    /// Stop: the batch is full.
    BatchDone,
    /// Stop: the time is used up, or the worker was told to stop.
    BudgetSpent,
}

/// Whether the time of a pass is used up.
pub open spec fn time_is_up(max_runtime_seconds: u64, elapsed_nanos: u128) -> bool {
    max_runtime_seconds == 0 || elapsed_nanos >= max_runtime_seconds * 1_000_000_000
}

fn is_time_up(max_runtime_seconds: u64, elapsed_nanos: u128) -> (r: bool)
    ensures
        r == time_is_up(max_runtime_seconds, elapsed_nanos),
{
    max_runtime_seconds == 0 || elapsed_nanos >= max_runtime_seconds as u128 * 1_000_000_000u128
}

/// What a worker does after it has run `jobs_run` jobs of a batch.
pub open spec fn next_step(
    jobs_run: int,
    run_batch_limit: int,
    max_runtime_seconds: u64,
    elapsed_nanos: u128,
    shutdown: bool,
) -> WorkerStep {
    if jobs_run >= run_batch_limit {
        WorkerStep::BatchDone
    } else if time_is_up(max_runtime_seconds, elapsed_nanos) || shutdown {
        WorkerStep::BudgetSpent
    } else {
        WorkerStep::Run
    }
}

/// What a worker does next. Whether it was told to stop is in `shutdown`.
pub fn next_worker_step(
    summary: &MediaSegmentWorkerIterationSummary,
    run_batch_limit: usize,
    elapsed_nanos: u128,
    shutdown: bool,
) -> (r: WorkerStep)
    ensures
        r == next_step(
            summary.jobs_run as int,
            run_batch_limit as int,
            summary.runtime_budget_seconds,
            elapsed_nanos,
            shutdown,
        ),
{
    if summary.jobs_run >= run_batch_limit {
        WorkerStep::BatchDone
    } else if is_time_up(summary.runtime_budget_seconds, elapsed_nanos) || shutdown {
        WorkerStep::BudgetSpent
    } else {
        WorkerStep::Run
    }
}

/// Whether the counts of a pass add up: no job is counted under two statuses.
pub open spec fn runs_add_up(s: MediaSegmentWorkerIterationSummary) -> bool {
    s.jobs_succeeded + s.jobs_skipped + s.jobs_requeued + s.jobs_failed + s.jobs_cancelled
        <= s.jobs_run
}

/// The pass after one more job was run, by the job's status after the run.
pub open spec fn counted(
    s: MediaSegmentWorkerIterationSummary,
    status: Seq<char>,
) -> MediaSegmentWorkerIterationSummary {
    let t = MediaSegmentWorkerIterationSummary { jobs_run: (s.jobs_run + 1) as usize, ..s };
    if status == "succeeded"@ {
        MediaSegmentWorkerIterationSummary {
            jobs_succeeded: (s.jobs_succeeded + 1) as usize,
            ..t
        }
    } else if status == "skipped"@ {
        MediaSegmentWorkerIterationSummary { jobs_skipped: (s.jobs_skipped + 1) as usize, ..t }
    } else if status == "queued"@ {
        MediaSegmentWorkerIterationSummary { jobs_requeued: (s.jobs_requeued + 1) as usize, ..t }
    } else if status == "failed"@ {
        MediaSegmentWorkerIterationSummary { jobs_failed: (s.jobs_failed + 1) as usize, ..t }
    } else if status == "cancelled"@ {
        MediaSegmentWorkerIterationSummary { jobs_cancelled: (s.jobs_cancelled + 1) as usize, ..t }
    } else {
        t
    }
}

/// Counts a job that was run, by its status after the run.
pub fn count_job_run(summary: &mut MediaSegmentWorkerIterationSummary, status: &str)
    requires
        runs_add_up(*old(summary)),
        old(summary).jobs_run < usize::MAX,
    ensures
        *final(summary) == counted(*old(summary), status@),
        runs_add_up(*final(summary)),
{
    summary.jobs_run = summary.jobs_run + 1;
    if text::str_eq(status, "succeeded") {
        summary.jobs_succeeded = summary.jobs_succeeded + 1;
    } else if text::str_eq(status, "skipped") {
        summary.jobs_skipped = summary.jobs_skipped + 1;
    } else if text::str_eq(status, "queued") {
        summary.jobs_requeued = summary.jobs_requeued + 1;
    } else if text::str_eq(status, "failed") {
        summary.jobs_failed = summary.jobs_failed + 1;
    } else if text::str_eq(status, "cancelled") {
        summary.jobs_cancelled = summary.jobs_cancelled + 1;
    }
}

/// Ends a pass. `last` is the step that stopped it, absent where there was no
/// job left to run.
pub fn end_worker_iteration(
    summary: MediaSegmentWorkerIterationSummary,
    last: Option<WorkerStep>,
    elapsed_nanos: u128,
) -> (r: MediaSegmentWorkerIterationSummary)
    ensures
        r.runtime_budget_exhausted == (summary.runtime_budget_exhausted || last == Some(
            WorkerStep::BudgetSpent,
        ) || time_is_up(summary.runtime_budget_seconds, elapsed_nanos)),
        r.runtime_elapsed_ms == if elapsed_nanos / 1_000_000 > u64::MAX {
            u64::MAX as int
        } else {
            elapsed_nanos as int / 1_000_000
        },
        r == (MediaSegmentWorkerIterationSummary {
            runtime_budget_exhausted: r.runtime_budget_exhausted,
            runtime_elapsed_ms: r.runtime_elapsed_ms,
            ..summary
        }),
{
    let millis: u128 = elapsed_nanos / 1_000_000;
    let stopped = match last {
        Some(WorkerStep::BudgetSpent) => true,
        _ => false,
    };
    let mut done = summary;
    done.runtime_elapsed_ms = if millis > u64::MAX as u128 {
        u64::MAX
    } else {
        millis as u64
    };
    done.runtime_budget_exhausted = summary.runtime_budget_exhausted || stopped || is_time_up(
        summary.runtime_budget_seconds,
        elapsed_nanos,
    );
    done
}

/// The counts of a pass after jobs with the given statuses.
pub open spec fn counted_all(
    s: MediaSegmentWorkerIterationSummary,
    statuses: Seq<Seq<char>>,
) -> MediaSegmentWorkerIterationSummary
    decreases statuses.len(),
{
    if statuses.len() == 0 {
        s
    } else {
        counted(counted_all(s, statuses.drop_last()), statuses.last())
    }
}

/// A pass never runs more jobs than its batch: while it may run another, it has
/// run fewer than the batch holds.
pub proof fn passes_stay_within_their_batch(
    s: MediaSegmentWorkerIterationSummary,
    statuses: Seq<Seq<char>>,
    run_batch_limit: usize,
    max_runtime_seconds: u64,
    elapsed_nanos: u128,
    shutdown: bool,
)
    requires
        s.jobs_run == 0,
        statuses.len() < run_batch_limit,
    ensures
        counted_all(s, statuses).jobs_run == statuses.len(),
        next_step(
            counted_all(s, statuses).jobs_run as int,
            run_batch_limit as int,
            max_runtime_seconds,
            elapsed_nanos,
            shutdown,
        ) == WorkerStep::Run ==> counted_all(s, statuses).jobs_run + 1 <= run_batch_limit,
    decreases statuses.len(),
{
    if statuses.len() > 0 {
        passes_stay_within_their_batch(
            s,
            statuses.drop_last(),
            run_batch_limit,
            max_runtime_seconds,
            elapsed_nanos,
            shutdown,
        );
    }
}

/// A pass with no time, and one that was told to stop, runs no job.
pub proof fn no_job_runs_without_time(
    jobs_run: int,
    run_batch_limit: int,
    max_runtime_seconds: u64,
    elapsed_nanos: u128,
    shutdown: bool,
)
    requires
        max_runtime_seconds == 0 || shutdown,
    ensures
        next_step(jobs_run, run_batch_limit, max_runtime_seconds, elapsed_nanos, shutdown)
            != WorkerStep::Run,
{
}

/// The outcome of a provider that its settings keep off.
pub fn disabled_provider_outcome(provider_kind: &str) -> (r: BuiltinProviderRefreshOutcome)
    ensures
        r.provider_kind@ == provider_kind@,
        !r.enabled,
        r.status@ == "skipped"@,
        !r.cache_hit,
        r.candidate_count == 0,
        r.accepted_count == 0,
        r.rejected_count == 0,
        opt_text(r.reason) == Some("provider_disabled"@),
{
    BuiltinProviderRefreshOutcome {
        provider_kind: provider_kind.to_owned(),
        enabled: false,
        status: "skipped".to_owned(),
        cache_hit: false,
        candidate_count: 0,
        accepted_count: 0,
        rejected_count: 0,
        reason: Some("provider_disabled".to_owned()),
    }
}

/// A summary of a file before any provider is asked.
pub fn new_refresh_summary(media_file_id: &str) -> (r: BuiltinProviderRefreshSummary)
    ensures
        r.media_file_id@ == media_file_id@,
        r.providers@.len() == 0,
        r.candidates_submitted == 0,
        r.candidates_accepted == 0,
        r.candidates_rejected == 0,
        r.active_segments == 0,
        refresh_adds_up(r),
{
    BuiltinProviderRefreshSummary {
        media_file_id: media_file_id.to_owned(),
        providers: Vec::new(),
        candidates_submitted: 0,
        candidates_accepted: 0,
        candidates_rejected: 0,
        active_segments: 0,
    }
}

/// Whether every submitted candidate of a refresh was accepted or rejected.
pub open spec fn refresh_adds_up(s: BuiltinProviderRefreshSummary) -> bool {
    s.candidates_submitted == s.candidates_accepted + s.candidates_rejected
}

/// Counts a submitted candidate in a refresh and in the outcome of its
/// provider, by the state of its validation.
pub fn count_candidate(
    summary: &mut BuiltinProviderRefreshSummary,
    outcome: &mut BuiltinProviderRefreshOutcome,
    validation_state: &str,
)
    requires
        refresh_adds_up(*old(summary)),
        old(summary).candidates_submitted < usize::MAX,
        old(outcome).accepted_count < usize::MAX,
        old(outcome).rejected_count < usize::MAX,
    ensures
        refresh_adds_up(*final(summary)),
        final(summary).candidates_submitted == old(summary).candidates_submitted + 1,
        final(summary).candidates_accepted == old(summary).candidates_accepted + if validation_state@
            == "accepted"@ {
            1int
        } else {
            0
        },
        final(summary).media_file_id == old(summary).media_file_id,
        final(summary).providers == old(summary).providers,
        final(summary).active_segments == old(summary).active_segments,
        final(outcome).accepted_count == old(outcome).accepted_count + if validation_state@
            == "accepted"@ {
            1int
        } else {
            0
        },
        final(outcome).rejected_count == old(outcome).rejected_count + if validation_state@
            == "accepted"@ {
            0int
        } else {
            1
        },
        final(outcome).provider_kind == old(outcome).provider_kind,
        final(outcome).enabled == old(outcome).enabled,
        final(outcome).status == old(outcome).status,
        final(outcome).cache_hit == old(outcome).cache_hit,
        final(outcome).candidate_count == old(outcome).candidate_count,
        final(outcome).reason == old(outcome).reason,
{
    summary.candidates_submitted = summary.candidates_submitted + 1;
    if text::str_eq(validation_state, "accepted") {
        summary.candidates_accepted = summary.candidates_accepted + 1;
        outcome.accepted_count = outcome.accepted_count + 1;
    } else {
        summary.candidates_rejected = summary.candidates_rejected + 1;
        outcome.rejected_count = outcome.rejected_count + 1;
    }
}

/// A worker runs another job just while its batch has room, it has time and it was
/// not told to stop; with room but no time, its budget is spent.
pub proof fn workers_stop_in_time(
    jobs_run: int,
    run_batch_limit: int,
    max_runtime_seconds: u64,
    elapsed_nanos: u128,
    shutdown: bool,
)
    ensures
        ({
            let step = next_step(
                jobs_run,
                run_batch_limit,
                max_runtime_seconds,
                elapsed_nanos,
                shutdown,
            );
            let room = jobs_run < run_batch_limit;
            let time = elapsed_nanos < 1_000_000_000 * max_runtime_seconds;
            &&& step == WorkerStep::Run <==> room && time && !shutdown
            &&& step == WorkerStep::BatchDone <==> !room
            &&& step == WorkerStep::BudgetSpent <==> room && (!time || shutdown)
        }),
{
}

/// Each job that is run counts once, and under the status that it ended in; what
/// else the pass counted stays.
pub proof fn runs_count_once(s: MediaSegmentWorkerIterationSummary, status: Seq<char>)
    requires
        s.jobs_run < usize::MAX,
        s.jobs_succeeded < usize::MAX,
        s.jobs_skipped < usize::MAX,
        s.jobs_requeued < usize::MAX,
        s.jobs_failed < usize::MAX,
        s.jobs_cancelled < usize::MAX,
    ensures
        ({
            let t = counted(s, status);
            let one = |b: bool|
                if b {
                    1int
                } else {
                    0
                };
            &&& t.jobs_run == s.jobs_run + 1
            &&& t.jobs_succeeded == s.jobs_succeeded + one(status == "succeeded"@)
            &&& t.jobs_skipped == s.jobs_skipped + one(status == "skipped"@)
            &&& t.jobs_requeued == s.jobs_requeued + one(status == "queued"@)
            &&& t.jobs_failed == s.jobs_failed + one(status == "failed"@)
            &&& t.jobs_cancelled == s.jobs_cancelled + one(status == "cancelled"@)
            &&& t.enqueue == s.enqueue && t.stale_jobs_recovered == s.stale_jobs_recovered
                && t.stale_jobs_requeued == s.stale_jobs_requeued && t.stale_jobs_failed
                == s.stale_jobs_failed
            &&& t.runtime_budget_seconds == s.runtime_budget_seconds && t.runtime_elapsed_ms
                == s.runtime_elapsed_ms && t.runtime_budget_exhausted
                == s.runtime_budget_exhausted
        }),
{
    lemma_run_statuses_differ();
}

proof fn lemma_run_statuses_differ()
    ensures
        "succeeded"@ != "skipped"@,
        "succeeded"@ != "queued"@,
        "succeeded"@ != "failed"@,
        "succeeded"@ != "cancelled"@,
        "skipped"@ != "queued"@,
        "skipped"@ != "failed"@,
        "skipped"@ != "cancelled"@,
        "queued"@ != "failed"@,
        "queued"@ != "cancelled"@,
        "failed"@ != "cancelled"@,
{
    reveal_strlit("succeeded");
    reveal_strlit("skipped");
    reveal_strlit("queued");
    reveal_strlit("failed");
    reveal_strlit("cancelled");
    assert("succeeded"@.len() == 9);
    assert("skipped"@.len() == 7);
    assert("queued"@.len() == 6);
    assert("failed"@.len() == 6);
    assert("cancelled"@.len() == 9);
    assert("succeeded"@[0] == 's');
    assert("queued"@[0] == 'q');
    assert("failed"@[0] == 'f');
    assert("cancelled"@[0] == 'c');
}

/// What a pass saw and queued is what its searches did, all together; a provider
/// whose detector has two searches is not seen twice.
pub proof fn searches_add_up(w: DueWork)
    ensures
        files_seen(w) == w.builtin.files_seen + w.marketplace.files_seen
            + w.audio_fingerprint.files_seen + w.audio_detector.files_seen + w.frame_hash.files_seen
            + w.visual_detector.files_seen,
        jobs_queued(w) == w.builtin.jobs_queued + w.marketplace.jobs_queued
            + w.audio_fingerprint.jobs_queued + w.audio_detector.jobs_queued
            + w.frame_hash.jobs_queued + w.visual_detector.jobs_queued,
        jobs_failed(w) == w.builtin.jobs_failed + w.marketplace.jobs_failed
            + w.audio_fingerprint.jobs_failed + w.audio_detector.jobs_failed
            + w.frame_hash.jobs_failed + w.visual_detector.jobs_failed,
        w.audio_fingerprint.providers_seen > 0 && w.frame_hash.providers_seen > 0
            ==> providers_seen(w) == w.builtin.providers_seen + w.marketplace.providers_seen
            + w.audio_fingerprint.providers_seen + w.frame_hash.providers_seen,
        w.audio_fingerprint.providers_seen == 0 && w.frame_hash.providers_seen == 0
            ==> providers_seen(w) == w.builtin.providers_seen + w.marketplace.providers_seen
            + w.audio_detector.providers_seen + w.visual_detector.providers_seen,
        w.audio_fingerprint.providers_seen > 0 && w.frame_hash.providers_seen == 0
            ==> providers_seen(w) == w.builtin.providers_seen + w.marketplace.providers_seen
            + w.audio_fingerprint.providers_seen + w.visual_detector.providers_seen,
{
}

/// A search looks for as many files as it is asked for, and at least for one; it lists as
/// many episodes as the films leave room for, where it asks for any and they leave some.
pub proof fn searches_fill_their_batch(
    limit: usize,
    batch: usize,
    asks: bool,
    batch_limit: usize,
    films: usize,
    episodes: Option<usize>,
)
    requires
        call_ensures(due_batch_limit, (limit,), batch),
        call_ensures(due_episode_limit, (asks, batch_limit, films), episodes),
    ensures
        limit >= 1 ==> batch == limit,
        limit == 0 ==> batch == 1,
        episodes is Some <==> asks && films < batch_limit,
        episodes is Some ==> films + episodes->0 == batch_limit,
{
}

/// A pass begins with what was recovered and queued and no run, and ends with the
/// milliseconds it took; its budget is spent where a step says so or the time is up.
pub proof fn passes_report_what_they_did(
    recovery: StaleMediaSegmentJobRecoverySummary,
    work: &DueWork,
    max_runtime_seconds: u64,
    begun: MediaSegmentWorkerIterationSummary,
    summary: MediaSegmentWorkerIterationSummary,
    last: Option<WorkerStep>,
    elapsed_nanos: u128,
    ended: MediaSegmentWorkerIterationSummary,
)
    requires
        call_ensures(begin_worker_iteration, (recovery, work, max_runtime_seconds), begun),
        call_ensures(end_worker_iteration, (summary, last, elapsed_nanos), ended),
    ensures
        begun.stale_jobs_recovered == recovery.recovered,
        begun.stale_jobs_requeued == recovery.requeued,
        begun.stale_jobs_failed == recovery.failed,
        begun.runtime_budget_seconds == max_runtime_seconds,
        begun.jobs_run == 0 && !begun.runtime_budget_exhausted && begun.runtime_elapsed_ms == 0,
        begun.enqueue.jobs_queued == work.builtin.jobs_queued + work.marketplace.jobs_queued
            + work.audio_fingerprint.jobs_queued + work.audio_detector.jobs_queued
            + work.frame_hash.jobs_queued + work.visual_detector.jobs_queued,
        elapsed_nanos <= 1_000_000_000_000_000_000 ==> ended.runtime_elapsed_ms * 1_000_000
            <= elapsed_nanos < (ended.runtime_elapsed_ms + 1) * 1_000_000,
        last == Some(WorkerStep::BudgetSpent) ==> ended.runtime_budget_exhausted,
        elapsed_nanos >= summary.runtime_budget_seconds * 1_000_000_000
            ==> ended.runtime_budget_exhausted,
        last != Some(WorkerStep::BudgetSpent) && !summary.runtime_budget_exhausted && elapsed_nanos
            < summary.runtime_budget_seconds * 1_000_000_000 ==> !ended.runtime_budget_exhausted,
        ended.jobs_run == summary.jobs_run && ended.jobs_succeeded == summary.jobs_succeeded
            && ended.jobs_failed == summary.jobs_failed && ended.enqueue == summary.enqueue,
{
}

/// A provider that its settings keep off is skipped, and says so.
pub proof fn providers_that_are_off_are_skipped(
    provider_kind: &str,
    r: BuiltinProviderRefreshOutcome,
)
    requires
        call_ensures(disabled_provider_outcome, (provider_kind,), r),
    ensures
        r.provider_kind@ == provider_kind@,
        !r.enabled && !r.cache_hit,
        r.status@ == "skipped"@,
        r.reason is Some && r.reason->0@ == "provider_disabled"@,
        r.candidate_count == 0 && r.accepted_count == 0 && r.rejected_count == 0,
{
}

/// Each provider that is seen counts once, with the files that are due for it; each attempt
/// to queue work counts as queued or as failed.
pub proof fn due_work_is_counted(files: usize, queued: bool)
    ensures
        forall|s: &mut MediaSegmentProviderEnqueueSummary|
            (*s).providers_seen < usize::MAX && (*s).files_seen + files <= usize::MAX
                && #[trigger] call_ensures(count_due, (s, files), ()) ==> {
                &&& (*final(s)).providers_seen == (*s).providers_seen + 1
                &&& (*final(s)).files_seen == (*s).files_seen + files
                &&& (*final(s)).jobs_queued == (*s).jobs_queued
                &&& (*final(s)).jobs_failed == (*s).jobs_failed
            },
        forall|s: &mut MediaSegmentProviderEnqueueSummary|
            #[trigger] call_ensures(count_enqueue, (s, queued), ()) ==> {
                &&& queued ==> (*final(s)).jobs_queued == (*s).jobs_queued + 1
                    && (*final(s)).jobs_failed == (*s).jobs_failed
                &&& !queued ==> (*final(s)).jobs_queued == (*s).jobs_queued
                    && (*final(s)).jobs_failed == (*s).jobs_failed + 1
                &&& (*final(s)).providers_seen == (*s).providers_seen
                &&& (*final(s)).files_seen == (*s).files_seen
            },
{
}

/// Each candidate that is submitted counts once in the refresh and in the outcome of its
/// provider, as accepted where it was accepted and as rejected otherwise.
pub proof fn refreshed_candidates_count_once(state: &str)
    ensures
        forall|s: &mut BuiltinProviderRefreshSummary, o: &mut BuiltinProviderRefreshOutcome|
            (*s).candidates_submitted == (*s).candidates_accepted + (*s).candidates_rejected
                && #[trigger] call_ensures(count_candidate, (s, o, state), ()) ==> {
                &&& (*final(s)).candidates_submitted == (*s).candidates_submitted + 1
                &&& state@ == "accepted"@ ==> (*final(s)).candidates_accepted
                    == (*s).candidates_accepted + 1 && (*final(s)).candidates_rejected
                    == (*s).candidates_rejected && (*final(o)).accepted_count == (*o).accepted_count
                    + 1 && (*final(o)).rejected_count == (*o).rejected_count
                &&& state@ != "accepted"@ ==> (*final(s)).candidates_accepted
                    == (*s).candidates_accepted && (*final(s)).candidates_rejected
                    == (*s).candidates_rejected + 1 && (*final(o)).accepted_count
                    == (*o).accepted_count && (*final(o)).rejected_count == (*o).rejected_count + 1
            },
{
}

} // verus!
