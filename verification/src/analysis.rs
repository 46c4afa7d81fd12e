//! The analysis of an item: which jobs are queued for its files and seasons.

use vstd::prelude::*;
use crate::error::{refuse, SegmentError};
use crate::jobs::{self, MediaSegmentJobRecord};
use crate::json::{self, Json, JsonValue};
use crate::normalize;
use crate::settings;
use crate::text;

verus! {

/// A request to analyse an item.
#[derive(Debug, Clone, Default)]
pub struct MediaSegmentItemAnalyzeRequest {
    pub force: Option<bool>,
    pub include_builtins: Option<bool>,
    pub include_local_detectors: Option<bool>,
    pub priority: Option<i64>,
}

/// What the analysis of an item queued, and what it could not queue.
#[derive(Debug, Clone)]
pub struct MediaSegmentItemAnalyzeSummary {
    pub item_type: String,
    pub item_id: String,
    pub force: bool,
    pub media_files_seen: usize,
    pub seasons_seen: usize,
    pub jobs: Vec<MediaSegmentJobRecord>,
    pub failures: Vec<MediaSegmentItemAnalyzeFailure>,
}

/// A job that could not be queued.
#[derive(Debug, Clone)]
pub struct MediaSegmentItemAnalyzeFailure {
    pub job_type: String,
    pub scope_type: String,
    pub scope_id: String,
    pub provider_kind: String,
    pub reason: String,
}

/// The files and seasons of an item.
#[derive(Debug, Clone)]
pub struct MediaSegmentItemAnalysisTargets {
    pub item_type: String,
    pub item_id: String,
    pub media_file_ids: Vec<String>,
    pub season_ids: Vec<String>,
}

/// A file with the provider settings that hold for it, or the message of the
/// error that kept them from being read.
#[derive(Debug)]
pub struct AnalysisFile {
    pub media_file_id: String,
    pub settings: Result<JsonValue, String>,
}

/// A season with the audio detector's settings of its first file that has it
/// on, or the message of the error that kept them from being read.
#[derive(Debug)]
pub struct AnalysisSeason {
    pub season_id: String,
    pub settings: Result<Option<JsonValue>, String>,
}

/// One step of an analysis.
#[derive(Debug, Clone)]
pub enum AnalysisStep {
    /// Note that the jobs of a file or season could not be queued.
    Fail(MediaSegmentItemAnalyzeFailure),
    /// Forget what a provider answered for a file.
    ClearCache { media_file_id: String, provider_kind: String },
    /// Queue a job.
    Queue {
        job_type: &'static str,
        scope_type: &'static str,
        scope_id: String,
        provider_kind: &'static str,
        priority: i64,
    },
}

/// One step of an analysis, as a mathematical value.
pub enum Step {
    Fail {
        job_type: Seq<char>,
        scope_type: Seq<char>,
        scope_id: Seq<char>,
        provider_kind: Seq<char>,
        reason: Seq<char>,
    },
    ClearCache { media_file_id: Seq<char>, provider_kind: Seq<char> },
    Queue {
        job_type: Seq<char>,
        scope_type: Seq<char>,
        scope_id: Seq<char>,
        provider_kind: Seq<char>,
        priority: int,
    },
}

impl View for AnalysisStep {
    type V = Step;

    open spec fn view(&self) -> Step {
        match self {
            AnalysisStep::Fail(f) => Step::Fail {
                job_type: f.job_type@,
                scope_type: f.scope_type@,
                scope_id: f.scope_id@,
                provider_kind: f.provider_kind@,
                reason: f.reason@,
            },
            AnalysisStep::ClearCache { media_file_id, provider_kind } => Step::ClearCache {
                media_file_id: media_file_id@,
                provider_kind: provider_kind@,
            },
            AnalysisStep::Queue { job_type, scope_type, scope_id, provider_kind, priority } =>
            Step::Queue {
                job_type: job_type@,
                scope_type: scope_type@,
                scope_id: scope_id@,
                provider_kind: provider_kind@,
                priority: *priority as int,
            },
        }
    }
}

/// The steps of a plan, as mathematical values.
pub open spec fn steps_of(v: Seq<AnalysisStep>) -> Seq<Step> {
    v.map_values(|s: AnalysisStep| s@)
}

/// How many characters of a failure's reason are kept.
pub const FAILURE_REASON_MAX_CHARS: usize = 500;

/// The reason of a failure as it is kept.
pub open spec fn kept_reason(message: Seq<char>) -> Seq<char> {
    text::first_chars(text::trim_seq(message), FAILURE_REASON_MAX_CHARS as int)
}

/// The priority of an analysis that names none.
pub const DEFAULT_ANALYSIS_PRIORITY: i64 = 80;

/// What a request to analyse asks for.
#[derive(Debug, Clone, Copy, PartialEq, Eq, Structural)]
pub struct AnalysisOptions {
    pub force: bool,
    pub include_builtins: bool,
    pub include_local_detectors: bool,
    pub priority: i64,
}

/// The switch, or the default where there is none.
pub open spec fn switch_or(b: Option<bool>, default: bool) -> bool {
    match b {
        Some(v) => v,
        None => default,
    }
}

/// What a request to analyse asks for.
pub fn analysis_options(request: &MediaSegmentItemAnalyzeRequest) -> (r: AnalysisOptions)
    ensures
        r.force == switch_or(request.force, false),
        r.include_builtins == switch_or(request.include_builtins, true),
        r.include_local_detectors == switch_or(request.include_local_detectors, true),
        r.priority == jobs::priority_of(request.priority, DEFAULT_ANALYSIS_PRIORITY as int),
        0 <= r.priority <= jobs::MAX_JOB_PRIORITY,
{
    let wanted: i64 = match request.priority {
        Some(p) => p,
        None => DEFAULT_ANALYSIS_PRIORITY,
    };
    AnalysisOptions {
        force: request.force.unwrap_or(false),
        include_builtins: request.include_builtins.unwrap_or(true),
        include_local_detectors: request.include_local_detectors.unwrap_or(true),
        priority: jobs::clamp(wanted, 0, jobs::MAX_JOB_PRIORITY),
    }
}

/// The type of a series that is analysed, or why it is not.
pub open spec fn series_type(requested: Seq<char>, library_type: Seq<char>) -> Result<
    Seq<char>,
    Seq<char>,
> {
    let actual = if library_type == "anime"@ {
        "anime"@
    } else {
        "series"@
    };
    if requested == "anime"@ && actual != "anime"@ {
        Err("item is not anime"@)
    } else {
        Ok(actual)
    }
}

/// The type of a series that is analysed. `library_type` is the type that the
/// library gives it, absent where it gives none.
pub fn analysis_series_type(requested_type: &str, library_type: Option<&str>) -> (r: Result<
    String,
    SegmentError,
>)
    ensures
        crate::error::text_agrees(
            r,
            series_type(
                requested_type@,
                match library_type {
                    Some(t) => t@,
                    None => "series"@,
                },
            ),
        ),
{
    proof {
        reveal_strlit("anime");
        reveal_strlit("series");
        assert("anime"@.len() != "series"@.len());
    }
    let anime = match library_type {
        Some(t) => text::str_eq(t, "anime"),
        None => false,
    };
    if anime {
        Ok("anime".to_owned())
    } else if text::str_eq(requested_type, "anime") {
        Err(refuse("item is not anime"))
    } else {
        Ok("series".to_owned())
    }
}

/// The ids in their order, each where it comes first.
pub open spec fn first_ids(ids: Seq<Seq<char>>) -> Seq<Seq<char>>
    decreases ids.len(),
{
    if ids.len() == 0 {
        Seq::empty()
    } else {
        let before = first_ids(ids.drop_last());
        if before.contains(ids.last()) {
            before
        } else {
            before.push(ids.last())
        }
    }
}

/// The texts of some strings.
pub open spec fn texts_of(v: Seq<String>) -> Seq<Seq<char>> {
    v.map_values(|s: String| s@)
}

/// The ids in their order, each where it comes first.
pub fn distinct_media_file_ids(ids: &Vec<String>) -> (r: Vec<String>)
    ensures
        texts_of(r@) == first_ids(texts_of(ids@)),
{
    let mut out: Vec<String> = Vec::new();
    let ghost all = texts_of(ids@);
    proof {
        assert(all.take(0) =~= Seq::empty());
        assert(texts_of(out@) =~= Seq::empty());
    }
    let mut i: usize = 0;
    while i < ids.len()
        invariant
            i <= ids@.len(),
            all == texts_of(ids@),
            texts_of(out@) == first_ids(all.take(i as int)),
        decreases ids@.len() - i,
    {
        let mut seen = false;
        let mut j: usize = 0;
        while j < out.len()
            invariant
                j <= out@.len(),
                i < ids@.len(),
                seen == (exists|k: int| 0 <= k < j && #[trigger] texts_of(out@)[k] == ids@[i as int]@),
            decreases out@.len() - j,
        {
            if text::str_eq(out[j].as_str(), ids[i].as_str()) {
                assert(texts_of(out@)[j as int] == ids@[i as int]@);
                seen = true;
            }
            j += 1;
        }
        let ghost before = texts_of(out@);
        proof {
            assert(all.take(i + 1).drop_last() =~= all.take(i as int));
            assert(all.take(i + 1).last() == ids@[i as int]@);
            assert(seen == before.contains(ids@[i as int]@));
        }
        if !seen {
            out.push(ids[i].clone());
            proof {
                assert(texts_of(out@) =~= before.push(ids@[i as int]@));
            }
        }
        i += 1;
    }
    proof {
        assert(all.take(ids@.len() as int) =~= all);
    }
    out
}

/// Every id is kept, and none twice.
pub proof fn first_ids_keep_each_id_once(ids: Seq<Seq<char>>)
    ensures
        first_ids(ids).no_duplicates(),
        forall|x: Seq<char>| #[trigger] first_ids(ids).contains(x) <==> ids.contains(x),
    decreases ids.len(),
{
    if ids.len() > 0 {
        let rest = ids.drop_last();
        first_ids_keep_each_id_once(rest);
        let before = first_ids(rest);
        let r = first_ids(ids);
        assert forall|x: Seq<char>| #[trigger] r.contains(x) <==> ids.contains(x) by {
            if ids.contains(x) {
                let i = choose|i: int| 0 <= i < ids.len() && ids[i] == x;
                if i < rest.len() {
                    assert(rest[i] == x);
                    assert(before.contains(x));
                    let k = choose|k: int| 0 <= k < before.len() && before[k] == x;
                    assert(r[k] == x);
                } else if !before.contains(x) {
                    assert(r[before.len() as int] == x);
                }
            }
            if r.contains(x) {
                let k = choose|k: int| 0 <= k < r.len() && r[k] == x;
                if k < before.len() {
                    assert(before[k] == x);
                    assert(before.contains(x));
                    assert(rest.contains(x));
                    let i = choose|i: int| 0 <= i < rest.len() && rest[i] == x;
                    assert(ids[i] == x);
                } else {
                    assert(ids[ids.len() - 1] == x);
                }
            }
        }
    }
}

/// Whether the settings have a provider on.
pub open spec fn provider_on(settings: Json, kind: Seq<char>) -> bool {
    settings::enabled_setting(json::json_get(settings, kind), false)
}

fn is_provider_on(settings: &JsonValue, kind: &str) -> (r: bool)
    ensures
        r == provider_on(settings@, kind@),
{
    let entry = settings::provider_settings_for(settings, kind);
    settings::provider_settings_enabled(entry.as_ref())
}

/// A step that queues a job.
pub open spec fn queue(
    job_type: Seq<char>,
    scope_type: Seq<char>,
    scope_id: Seq<char>,
    provider_kind: Seq<char>,
    priority: int,
) -> Step {
    Step::Queue { job_type, scope_type, scope_id, provider_kind, priority }
}

/// The steps that refresh a provider for a file.
pub open spec fn refresh_steps(
    file: Seq<char>,
    kind: Seq<char>,
    force: bool,
    priority: int,
) -> Seq<Step> {
    let clear: Seq<Step> = if force {
        seq![Step::ClearCache { media_file_id: file, provider_kind: kind }]
    } else {
        Seq::empty()
    };
    clear.push(queue("provider_refresh"@, "media_file"@, file, kind, priority))
}

/// The steps of the built-in providers for a file: TheIntroDB where it is on,
/// and AniSkip where it is on and the item is anime.
pub open spec fn builtin_steps(
    item_type: Seq<char>,
    file: AnalysisFile,
    force: bool,
    priority: int,
) -> Seq<Step> {
    match file.settings {
        Err(m) => seq![
            Step::Fail {
                job_type: "provider_refresh"@,
                scope_type: "media_file"@,
                scope_id: file.media_file_id@,
                provider_kind: "all"@,
                reason: kept_reason(m@),
            },
        ],
        Ok(s) => {
            let theintrodb: Seq<Step> = if provider_on(s@, "theintrodb"@) {
                refresh_steps(file.media_file_id@, "theintrodb"@, force, priority)
            } else {
                Seq::empty()
            };
            let aniskip: Seq<Step> = if item_type == "anime"@ && provider_on(s@, "aniskip"@) {
                refresh_steps(file.media_file_id@, "aniskip"@, force, priority)
            } else {
                Seq::empty()
            };
            theintrodb + aniskip
        },
    }
}

/// The steps of the built-in providers for all files.
pub open spec fn builtin_plan(
    item_type: Seq<char>,
    files: Seq<AnalysisFile>,
    force: bool,
    priority: int,
) -> Seq<Step>
    decreases files.len(),
{
    if files.len() == 0 {
        Seq::empty()
    } else {
        builtin_plan(item_type, files.drop_last(), force, priority) + builtin_steps(
            item_type,
            files.last(),
            force,
            priority,
        )
    }
}

fn failure(
    job_type: &str,
    scope_type: &str,
    scope_id: &str,
    provider_kind: &str,
    message: &str,
) -> (f: MediaSegmentItemAnalyzeFailure)
    ensures
        f.job_type@ == job_type@,
        f.scope_type@ == scope_type@,
        f.scope_id@ == scope_id@,
        f.provider_kind@ == provider_kind@,
        f.reason@ == kept_reason(message@),
{
    MediaSegmentItemAnalyzeFailure {
        job_type: job_type.to_owned(),
        scope_type: scope_type.to_owned(),
        scope_id: scope_id.to_owned(),
        provider_kind: provider_kind.to_owned(),
        reason: normalize::truncate_for_error(message, FAILURE_REASON_MAX_CHARS),
    }
}

/// Notes in a summary that a job could not be queued.
pub fn push_item_analysis_failure(
    summary: &mut MediaSegmentItemAnalyzeSummary,
    job_type: &str,
    scope_type: &str,
    scope_id: &str,
    provider_kind: &str,
    message: &str,
)
    ensures
        final(summary).failures@.len() == old(summary).failures@.len() + 1,
        final(summary).failures@.drop_last() == old(summary).failures@,
        final(summary).failures@.last().job_type@ == job_type@,
        final(summary).failures@.last().scope_type@ == scope_type@,
        final(summary).failures@.last().scope_id@ == scope_id@,
        final(summary).failures@.last().provider_kind@ == provider_kind@,
        final(summary).failures@.last().reason@ == kept_reason(message@),
        final(summary).jobs == old(summary).jobs,
        final(summary).item_type == old(summary).item_type,
        final(summary).item_id == old(summary).item_id,
        final(summary).force == old(summary).force,
        final(summary).media_files_seen == old(summary).media_files_seen,
        final(summary).seasons_seen == old(summary).seasons_seen,
{
    let f = failure(job_type, scope_type, scope_id, provider_kind, message);
    let ghost before = summary.failures@;
    summary.failures.push(f);
    proof {
        assert(summary.failures@.drop_last() =~= before);
    }
}

fn push_refresh(
    out: &mut Vec<AnalysisStep>,
    file: &str,
    kind: &'static str,
    force: bool,
    priority: i64,
)
    ensures
        steps_of(final(out)@) == steps_of(old(out)@) + refresh_steps(
            file@,
            kind@,
            force,
            priority as int,
        ),
{
    let ghost before = steps_of(out@);
    if force {
        out.push(
            AnalysisStep::ClearCache {
                media_file_id: file.to_owned(),
                provider_kind: kind.to_owned(),
            },
        );
    }
    out.push(
        AnalysisStep::Queue {
            job_type: "provider_refresh",
            scope_type: "media_file",
            scope_id: file.to_owned(),
            provider_kind: kind,
            priority,
        },
    );
    proof {
        assert(steps_of(out@) =~= before + refresh_steps(file@, kind@, force, priority as int));
    }
}

/// Plans the jobs of the built-in providers for the files of an item.
pub fn plan_builtin_analysis(
    item_type: &str,
    files: &Vec<AnalysisFile>,
    force: bool,
    priority: i64,
) -> (r: Vec<AnalysisStep>)
    ensures
        steps_of(r@) == builtin_plan(item_type@, files@, force, priority as int),
{
    let mut out: Vec<AnalysisStep> = Vec::new();
    let anime = text::str_eq(item_type, "anime");
    proof {
        assert(files@.take(0) =~= Seq::empty());
        assert(steps_of(out@) =~= Seq::empty());
    }
    let mut i: usize = 0;
    while i < files.len()
        invariant
            i <= files@.len(),
            anime == (item_type@ == "anime"@),
            steps_of(out@) == builtin_plan(
                item_type@,
                files@.take(i as int),
                force,
                priority as int,
            ),
        decreases files@.len() - i,
    {
        let file = &files[i];
        let id = file.media_file_id.as_str();
        let ghost before = steps_of(out@);
        proof {
            assert(files@.take(i + 1).drop_last() =~= files@.take(i as int));
            assert(files@.take(i + 1).last() == files@[i as int]);
        }
        match &file.settings {
            Err(m) => {
                out.push(
                    AnalysisStep::Fail(
                        failure("provider_refresh", "media_file", id, "all", m.as_str()),
                    ),
                );
                proof {
                    assert(steps_of(out@) =~= before + builtin_steps(
                        item_type@,
                        files@[i as int],
                        force,
                        priority as int,
                    ));
                }
            },
            Ok(s) => {
                if is_provider_on(s, "theintrodb") {
                    push_refresh(&mut out, id, "theintrodb", force, priority);
                }
                if anime && is_provider_on(s, "aniskip") {
                    push_refresh(&mut out, id, "aniskip", force, priority);
                }
                proof {
                    assert(steps_of(out@) =~= before + builtin_steps(
                        item_type@,
                        files@[i as int],
                        force,
                        priority as int,
                    ));
                }
            },
        }
        i += 1;
    }
    proof {
        assert(files@.take(files@.len() as int) =~= files@);
    }
    out
}

/// The steps of the local detectors for a file: fingerprints where the audio
/// detector is on and the item is no movie; frame hashes and credits where the
/// visual detector is on.
pub open spec fn local_steps(item_type: Seq<char>, file: AnalysisFile, priority: int) -> Seq<Step> {
    match file.settings {
        Err(m) => seq![
            Step::Fail {
                job_type: "local_detector"@,
                scope_type: "media_file"@,
                scope_id: file.media_file_id@,
                provider_kind: "all"@,
                reason: kept_reason(m@),
            },
        ],
        Ok(s) => {
            let audio: Seq<Step> = if item_type != "movie"@ && provider_on(
                s@,
                "local_audio_recurring"@,
            ) {
                seq![
                    queue(
                        "audio_fingerprint"@,
                        "media_file"@,
                        file.media_file_id@,
                        "local_audio_recurring"@,
                        priority + 20,
                    ),
                ]
            } else {
                Seq::empty()
            };
            let visual: Seq<Step> = if provider_on(s@, "local_visual_recurring"@) {
                seq![
                    queue(
                        "video_frame_hash"@,
                        "media_file"@,
                        file.media_file_id@,
                        "local_visual_recurring"@,
                        priority + 40,
                    ),
                    queue(
                        "local_detector"@,
                        "media_file"@,
                        file.media_file_id@,
                        "local_visual_recurring"@,
                        priority + 50,
                    ),
                ]
            } else {
                Seq::empty()
            };
            audio + visual
        },
    }
}

/// The steps of the local detectors for all files.
pub open spec fn local_file_plan(
    item_type: Seq<char>,
    files: Seq<AnalysisFile>,
    priority: int,
) -> Seq<Step>
    decreases files.len(),
{
    if files.len() == 0 {
        Seq::empty()
    } else {
        local_file_plan(item_type, files.drop_last(), priority) + local_steps(
            item_type,
            files.last(),
            priority,
        )
    }
}

/// The steps of the audio detector for a season.
pub open spec fn season_steps(season: AnalysisSeason, priority: int) -> Seq<Step> {
    match season.settings {
        Err(m) => seq![
            Step::Fail {
                job_type: "local_detector"@,
                scope_type: "season"@,
                scope_id: season.season_id@,
                provider_kind: "local_audio_recurring"@,
                reason: kept_reason(m@),
            },
        ],
        Ok(s) => if settings::enabled_setting(json::opt_value(s), false) {
            seq![
                queue(
                    "local_detector"@,
                    "season"@,
                    season.season_id@,
                    "local_audio_recurring"@,
                    priority + 30,
                ),
            ]
        } else {
            Seq::empty()
        },
    }
}

/// The steps of the audio detector for all seasons.
pub open spec fn season_plan(seasons: Seq<AnalysisSeason>, priority: int) -> Seq<Step>
    decreases seasons.len(),
{
    if seasons.len() == 0 {
        Seq::empty()
    } else {
        season_plan(seasons.drop_last(), priority) + season_steps(seasons.last(), priority)
    }
}

/// The steps of the local detectors for an item; a movie has no seasons.
pub open spec fn local_plan(
    item_type: Seq<char>,
    files: Seq<AnalysisFile>,
    seasons: Seq<AnalysisSeason>,
    priority: int,
) -> Seq<Step> {
    local_file_plan(item_type, files, priority) + if item_type == "movie"@ {
        Seq::empty()
    } else {
        season_plan(seasons, priority)
    }
}

fn queue_step(
    job_type: &'static str,
    scope_type: &'static str,
    scope_id: &str,
    provider_kind: &'static str,
    priority: i64,
) -> (s: AnalysisStep)
    ensures
        s@ == queue(job_type@, scope_type@, scope_id@, provider_kind@, priority as int),
{
    AnalysisStep::Queue {
        job_type,
        scope_type,
        scope_id: scope_id.to_owned(),
        provider_kind,
        priority,
    }
}

fn push_local_steps(
    out: &mut Vec<AnalysisStep>,
    movie: bool,
    item_type: Ghost<Seq<char>>,
    file: &AnalysisFile,
    priority: i64,
)
    requires
        priority <= jobs::MAX_JOB_PRIORITY,
        movie == (item_type@ == "movie"@),
    ensures
        steps_of(final(out)@) == steps_of(old(out)@) + local_steps(
            item_type@,
            *file,
            priority as int,
        ),
{
    let id = file.media_file_id.as_str();
    let ghost before = steps_of(out@);
    match &file.settings {
        Err(m) => {
            out.push(
                AnalysisStep::Fail(failure("local_detector", "media_file", id, "all", m.as_str())),
            );
        },
        Ok(s) => {
            if !movie && is_provider_on(s, "local_audio_recurring") {
                out.push(
                    queue_step(
                        "audio_fingerprint",
                        "media_file",
                        id,
                        "local_audio_recurring",
                        priority + 20,
                    ),
                );
            }
            if is_provider_on(s, "local_visual_recurring") {
                out.push(
                    queue_step(
                        "video_frame_hash",
                        "media_file",
                        id,
                        "local_visual_recurring",
                        priority + 40,
                    ),
                );
                out.push(
                    queue_step(
                        "local_detector",
                        "media_file",
                        id,
                        "local_visual_recurring",
                        priority + 50,
                    ),
                );
            }
        },
    }
    proof {
        assert(steps_of(out@) =~= before + local_steps(item_type@, *file, priority as int));
    }
}

/// Plans the jobs of the local detectors for the files and seasons of an item.
pub fn plan_local_analysis(
    item_type: &str,
    files: &Vec<AnalysisFile>,
    seasons: &Vec<AnalysisSeason>,
    priority: i64,
) -> (r: Vec<AnalysisStep>)
    requires
        priority <= jobs::MAX_JOB_PRIORITY,
    ensures
        steps_of(r@) == local_plan(item_type@, files@, seasons@, priority as int),
{
    let mut out: Vec<AnalysisStep> = Vec::new();
    let movie = text::str_eq(item_type, "movie");
    proof {
        assert(files@.take(0) =~= Seq::empty());
        assert(steps_of(out@) =~= Seq::empty());
    }
    let mut i: usize = 0;
    while i < files.len()
        invariant
            i <= files@.len(),
            priority <= jobs::MAX_JOB_PRIORITY,
            movie == (item_type@ == "movie"@),
            steps_of(out@) == local_file_plan(item_type@, files@.take(i as int), priority as int),
        decreases files@.len() - i,
    {
        proof {
            assert(files@.take(i + 1).drop_last() =~= files@.take(i as int));
            assert(files@.take(i + 1).last() == files@[i as int]);
        }
        push_local_steps(&mut out, movie, Ghost(item_type@), &files[i], priority);
        i += 1;
    }
    let ghost file_steps = steps_of(out@);
    proof {
        assert(files@.take(files@.len() as int) =~= files@);
        assert(seasons@.take(0) =~= Seq::empty());
        assert(file_steps + Seq::<Step>::empty() =~= file_steps);
    }
    if !movie {
        let mut j: usize = 0;
        while j < seasons.len()
            invariant
                j <= seasons@.len(),
                priority <= jobs::MAX_JOB_PRIORITY,
                steps_of(out@) == file_steps + season_plan(
                    seasons@.take(j as int),
                    priority as int,
                ),
            decreases seasons@.len() - j,
        {
            let season = &seasons[j];
            let id = season.season_id.as_str();
            let ghost before = steps_of(out@);
            proof {
                assert(seasons@.take(j + 1).drop_last() =~= seasons@.take(j as int));
                assert(seasons@.take(j + 1).last() == seasons@[j as int]);
            }
            match &season.settings {
                Err(m) => {
                    out.push(
                        AnalysisStep::Fail(
                            failure(
                                "local_detector",
                                "season",
                                id,
                                "local_audio_recurring",
                                m.as_str(),
                            ),
                        ),
                    );
                },
                Ok(s) => {
                    if settings::provider_settings_enabled(s.as_ref()) {
                        out.push(
                            queue_step(
                                "local_detector",
                                "season",
                                id,
                                "local_audio_recurring",
                                priority + 30,
                            ),
                        );
                    }
                },
            }
            proof {
                assert(steps_of(out@) =~= before + season_steps(
                    seasons@[j as int],
                    priority as int,
                ));
                assert(before + season_steps(seasons@[j as int], priority as int) =~= file_steps
                    + (season_plan(seasons@.take(j as int), priority as int) + season_steps(
                    seasons@[j as int],
                    priority as int,
                )));
            }
            j += 1;
        }
        proof {
            assert(seasons@.take(seasons@.len() as int) =~= seasons@);
        }
    }
    out
}

/// An analysis queues only work that jobs can do: every queued step is of a
/// supported kind.
pub proof fn planned_jobs_are_supported(
    item_type: Seq<char>,
    files: Seq<AnalysisFile>,
    seasons: Seq<AnalysisSeason>,
    force: bool,
    priority: int,
)
    ensures
        forall|i: int|
            0 <= i < builtin_plan(item_type, files, force, priority).len() ==> supported(
                #[trigger] builtin_plan(item_type, files, force, priority)[i],
            ),
        forall|i: int|
            0 <= i < local_plan(item_type, files, seasons, priority).len() ==> supported(
                #[trigger] local_plan(item_type, files, seasons, priority)[i],
            ),
{
    lemma_builtin_supported(item_type, files, force, priority);
    lemma_local_supported(item_type, files, priority);
    lemma_season_supported(seasons, priority);
}

/// Whether a step, where it queues a job, queues one that can be run.
pub open spec fn supported(s: Step) -> bool {
    s matches Step::Queue { job_type, scope_type, provider_kind, .. } ==> jobs::kind_of(
        job_type,
        scope_type,
        provider_kind,
    ) != jobs::JobKind::Unsupported
}

pub open spec fn all_supported(s: Seq<Step>) -> bool {
    forall|i: int| 0 <= i < s.len() ==> supported(#[trigger] s[i])
}

proof fn lemma_builtin_supported(
    item_type: Seq<char>,
    files: Seq<AnalysisFile>,
    force: bool,
    priority: int,
)
    ensures
        all_supported(builtin_plan(item_type, files, force, priority)),
    decreases files.len(),
{
    if files.len() > 0 {
        lemma_builtin_supported(item_type, files.drop_last(), force, priority);
    }
}

proof fn lemma_local_supported(item_type: Seq<char>, files: Seq<AnalysisFile>, priority: int)
    ensures
        all_supported(local_file_plan(item_type, files, priority)),
    decreases files.len(),
{
    if files.len() > 0 {
        lemma_local_supported(item_type, files.drop_last(), priority);
    }
}

proof fn lemma_season_supported(seasons: Seq<AnalysisSeason>, priority: int)
    ensures
        all_supported(season_plan(seasons, priority)),
    decreases seasons.len(),
{
    if seasons.len() > 0 {
        lemma_season_supported(seasons.drop_last(), priority);
    }
}

proof fn lemma_joined_contains(a: Seq<Step>, b: Seq<Step>, x: Step)
    ensures
        (a + b).contains(x) <==> a.contains(x) || b.contains(x),
{
    let s = a + b;
    if a.contains(x) {
        let i = choose|i: int| 0 <= i < a.len() && a[i] == x;
        assert(s[i] == x);
    }
    if b.contains(x) {
        let i = choose|i: int| 0 <= i < b.len() && b[i] == x;
        assert(s[a.len() + i] == x);
    }
    if s.contains(x) {
        let i = choose|i: int| 0 <= i < s.len() && s[i] == x;
        if i < a.len() {
            assert(a[i] == x);
        } else {
            assert(b[i - a.len()] == x);
        }
    }
}

proof fn lemma_builtin_contains(
    item_type: Seq<char>,
    files: Seq<AnalysisFile>,
    force: bool,
    priority: int,
    x: Step,
)
    ensures
        builtin_plan(item_type, files, force, priority).contains(x) <==> exists|k: int|
            0 <= k < files.len() && builtin_steps(
                item_type,
                #[trigger] files[k],
                force,
                priority,
            ).contains(x),
    decreases files.len(),
{
    if files.len() > 0 {
        let rest = files.drop_last();
        lemma_builtin_contains(item_type, rest, force, priority, x);
        lemma_joined_contains(
            builtin_plan(item_type, rest, force, priority),
            builtin_steps(item_type, files.last(), force, priority),
            x,
        );
        if builtin_plan(item_type, rest, force, priority).contains(x) {
            let k = choose|k: int|
                0 <= k < rest.len() && builtin_steps(
                    item_type,
                    #[trigger] rest[k],
                    force,
                    priority,
                ).contains(x);
            assert(files[k] == rest[k]);
        }
        if exists|k: int|
            0 <= k < files.len() && builtin_steps(
                item_type,
                #[trigger] files[k],
                force,
                priority,
            ).contains(x) {
            let k = choose|k: int|
                0 <= k < files.len() && builtin_steps(
                    item_type,
                    #[trigger] files[k],
                    force,
                    priority,
                ).contains(x);
            if k < rest.len() {
                assert(rest[k] == files[k]);
            }
        }
    } else {
        assert(builtin_plan(item_type, files, force, priority) =~= Seq::empty());
    }
}

/// An analysis has TheIntroDB refreshed for just those files whose settings have it
/// on, and AniSkip for those of anime whose settings have it on. What they answered
/// before is forgotten just where that is asked for. A file whose settings could not
/// be read is reported.
pub proof fn analysed_files_are_refreshed(
    item_type: Seq<char>,
    files: Seq<AnalysisFile>,
    force: bool,
    priority: int,
    id: Seq<char>,
)
    ensures
        ({
            let plan = builtin_plan(item_type, files, force, priority);
            let theintrodb = exists|k: int|
                0 <= k < files.len() && (#[trigger] files[k]).media_file_id@ == id
                    && files[k].settings is Ok && on(files[k].settings->Ok_0@, "theintrodb"@);
            let aniskip = item_type == "anime"@ && exists|k: int|
                0 <= k < files.len() && (#[trigger] files[k]).media_file_id@ == id
                    && files[k].settings is Ok && on(files[k].settings->Ok_0@, "aniskip"@);
            let unread = exists|k: int|
                0 <= k < files.len() && (#[trigger] files[k]).media_file_id@ == id
                    && files[k].settings is Err;
            &&& plan.contains(
                Step::Queue {
                    job_type: "provider_refresh"@,
                    scope_type: "media_file"@,
                    scope_id: id,
                    provider_kind: "theintrodb"@,
                    priority,
                },
            ) <==> theintrodb
            &&& plan.contains(
                Step::Queue {
                    job_type: "provider_refresh"@,
                    scope_type: "media_file"@,
                    scope_id: id,
                    provider_kind: "aniskip"@,
                    priority,
                },
            ) <==> aniskip
            &&& plan.contains(
                Step::ClearCache { media_file_id: id, provider_kind: "theintrodb"@ },
            ) <==> theintrodb && force
            &&& plan.contains(
                Step::ClearCache { media_file_id: id, provider_kind: "aniskip"@ },
            ) <==> aniskip && force
            &&& unread ==> exists|reason: Seq<char>| #[trigger]
                plan.contains(
                    Step::Fail {
                        job_type: "provider_refresh"@,
                        scope_type: "media_file"@,
                        scope_id: id,
                        provider_kind: "all"@,
                        reason,
                    },
                )
        }),
{
    reveal_strlit("theintrodb");
    reveal_strlit("aniskip");
    assert("theintrodb"@.len() == 10 && "aniskip"@.len() == 7);
    let q1 = queue("provider_refresh"@, "media_file"@, id, "theintrodb"@, priority);
    let q2 = queue("provider_refresh"@, "media_file"@, id, "aniskip"@, priority);
    let c1 = Step::ClearCache { media_file_id: id, provider_kind: "theintrodb"@ };
    let c2 = Step::ClearCache { media_file_id: id, provider_kind: "aniskip"@ };
    lemma_builtin_contains(item_type, files, force, priority, q1);
    lemma_builtin_contains(item_type, files, force, priority, q2);
    lemma_builtin_contains(item_type, files, force, priority, c1);
    lemma_builtin_contains(item_type, files, force, priority, c2);
    assert forall|k: int| 0 <= k < files.len() implies {
        let steps = builtin_steps(item_type, #[trigger] files[k], force, priority);
        let mine = files[k].media_file_id@ == id && files[k].settings is Ok;
        let a = mine && on(files[k].settings->Ok_0@, "theintrodb"@);
        let b = mine && item_type == "anime"@ && on(files[k].settings->Ok_0@, "aniskip"@);
        &&& steps.contains(q1) <==> a
        &&& steps.contains(q2) <==> b
        &&& steps.contains(c1) <==> a && force
        &&& steps.contains(c2) <==> b && force
    } by {
        lemma_builtin_of_file(item_type, files[k], force, priority, id);
    }
    if exists|k: int|
        0 <= k < files.len() && (#[trigger] files[k]).media_file_id@ == id && files[k].settings
            is Err {
        let k = choose|k: int|
            0 <= k < files.len() && (#[trigger] files[k]).media_file_id@ == id
                && files[k].settings is Err;
        let x = Step::Fail {
            job_type: "provider_refresh"@,
            scope_type: "media_file"@,
            scope_id: id,
            provider_kind: "all"@,
            reason: kept_reason(files[k].settings->Err_0@),
        };
        lemma_builtin_contains(item_type, files, force, priority, x);
        assert(builtin_steps(item_type, files[k], force, priority)[0] == x);
        assert(builtin_plan(item_type, files, force, priority).contains(x));
    }
}

/// Whether some settings switch a provider on.
pub open spec fn on(all: Json, kind: Seq<char>) -> bool {
    match json::json_get(all, kind) {
        Some(own) => json::json_get(own, "enabled"@) == Some(Json::Bool(true)),
        None => false,
    }
}

proof fn lemma_builtin_of_file(
    item_type: Seq<char>,
    file: AnalysisFile,
    force: bool,
    priority: int,
    id: Seq<char>,
)
    requires
        "theintrodb"@ != "aniskip"@,
    ensures
        ({
            let steps = builtin_steps(item_type, file, force, priority);
            let mine = file.media_file_id@ == id && file.settings is Ok;
            let a = mine && on(file.settings->Ok_0@, "theintrodb"@);
            let b = mine && item_type == "anime"@ && on(file.settings->Ok_0@, "aniskip"@);
            &&& steps.contains(
                queue("provider_refresh"@, "media_file"@, id, "theintrodb"@, priority),
            ) <==> a
            &&& steps.contains(
                queue("provider_refresh"@, "media_file"@, id, "aniskip"@, priority),
            ) <==> b
            &&& steps.contains(
                Step::ClearCache { media_file_id: id, provider_kind: "theintrodb"@ },
            ) <==> a && force
            &&& steps.contains(
                Step::ClearCache { media_file_id: id, provider_kind: "aniskip"@ },
            ) <==> b && force
        }),
{
    let steps = builtin_steps(item_type, file, force, priority);
    match file.settings {
        Err(_) => {},
        Ok(s) => {
            let f = file.media_file_id@;
            let t: Seq<Step> = if provider_on(s@, "theintrodb"@) {
                refresh_steps(f, "theintrodb"@, force, priority)
            } else {
                Seq::empty()
            };
            let n: Seq<Step> = if item_type == "anime"@ && provider_on(s@, "aniskip"@) {
                refresh_steps(f, "aniskip"@, force, priority)
            } else {
                Seq::empty()
            };
            assert(steps == t + n);
            assert forall|x: Step| #[trigger] steps.contains(x) <==> t.contains(x)
                || n.contains(x) by {
                lemma_joined_contains(t, n, x);
            }
            lemma_refresh_contains(f, "theintrodb"@, force, priority);
            lemma_refresh_contains(f, "aniskip"@, force, priority);
        },
    }
}

proof fn lemma_refresh_contains(file: Seq<char>, kind: Seq<char>, force: bool, priority: int)
    ensures
        forall|x: Step| #[trigger]
            refresh_steps(file, kind, force, priority).contains(x) <==> {
                ||| x == queue("provider_refresh"@, "media_file"@, file, kind, priority)
                ||| force && x == (Step::ClearCache { media_file_id: file, provider_kind: kind })
            },
{
    let s = refresh_steps(file, kind, force, priority);
    let q = queue("provider_refresh"@, "media_file"@, file, kind, priority);
    let c = Step::ClearCache { media_file_id: file, provider_kind: kind };
    assert(s.last() == q);
    assert(s[s.len() - 1] == q);
    if force {
        assert(s[0] == c);
        assert(s.len() == 2);
    } else {
        assert(s.len() == 1);
    }
}

proof fn lemma_local_contains(
    item_type: Seq<char>,
    files: Seq<AnalysisFile>,
    priority: int,
    x: Step,
)
    ensures
        local_file_plan(item_type, files, priority).contains(x) <==> exists|k: int|
            0 <= k < files.len() && local_steps(
                item_type,
                #[trigger] files[k],
                priority,
            ).contains(x),
    decreases files.len(),
{
    if files.len() > 0 {
        let rest = files.drop_last();
        lemma_local_contains(item_type, rest, priority, x);
        lemma_joined_contains(
            local_file_plan(item_type, rest, priority),
            local_steps(item_type, files.last(), priority),
            x,
        );
        if local_file_plan(item_type, rest, priority).contains(x) {
            let k = choose|k: int|
                0 <= k < rest.len() && local_steps(
                    item_type,
                    #[trigger] rest[k],
                    priority,
                ).contains(x);
            assert(files[k] == rest[k]);
        }
        if exists|k: int|
            0 <= k < files.len() && local_steps(
                item_type,
                #[trigger] files[k],
                priority,
            ).contains(x) {
            let k = choose|k: int|
                0 <= k < files.len() && local_steps(
                    item_type,
                    #[trigger] files[k],
                    priority,
                ).contains(x);
            if k < rest.len() {
                assert(rest[k] == files[k]);
            }
        }
    } else {
        assert(local_file_plan(item_type, files, priority) =~= Seq::empty());
    }
}

proof fn lemma_season_contains(seasons: Seq<AnalysisSeason>, priority: int, x: Step)
    ensures
        season_plan(seasons, priority).contains(x) <==> exists|k: int|
            0 <= k < seasons.len() && season_steps(#[trigger] seasons[k], priority).contains(x),
    decreases seasons.len(),
{
    if seasons.len() > 0 {
        let rest = seasons.drop_last();
        lemma_season_contains(rest, priority, x);
        lemma_joined_contains(
            season_plan(rest, priority),
            season_steps(seasons.last(), priority),
            x,
        );
        if season_plan(rest, priority).contains(x) {
            let k = choose|k: int|
                0 <= k < rest.len() && season_steps(#[trigger] rest[k], priority).contains(x);
            assert(seasons[k] == rest[k]);
        }
        if exists|k: int|
            0 <= k < seasons.len() && season_steps(#[trigger] seasons[k], priority).contains(x) {
            let k = choose|k: int|
                0 <= k < seasons.len() && season_steps(#[trigger] seasons[k], priority).contains(x);
            if k < rest.len() {
                assert(rest[k] == seasons[k]);
            }
        }
    } else {
        assert(season_plan(seasons, priority) =~= Seq::empty());
    }
}

/// An analysis of a series has the audio of just those files fingerprinted whose
/// settings have the audio detector on, and that of a film none. It has the frames of
/// just those files hashed and searched whose settings have the visual detector on.
/// The jobs come after those of the providers: fingerprints, seasons, hashes and the
/// search, in this order.
pub proof fn analysed_files_are_searched(
    item_type: Seq<char>,
    files: Seq<AnalysisFile>,
    seasons: Seq<AnalysisSeason>,
    priority: int,
    id: Seq<char>,
)
    ensures
        ({
            let plan = local_plan(item_type, files, seasons, priority);
            let audio = item_type != "movie"@ && exists|k: int|
                0 <= k < files.len() && (#[trigger] files[k]).media_file_id@ == id
                    && files[k].settings is Ok && on(
                    files[k].settings->Ok_0@,
                    "local_audio_recurring"@,
                );
            let visual = exists|k: int|
                0 <= k < files.len() && (#[trigger] files[k]).media_file_id@ == id
                    && files[k].settings is Ok && on(
                    files[k].settings->Ok_0@,
                    "local_visual_recurring"@,
                );
            &&& plan.contains(
                Step::Queue {
                    job_type: "audio_fingerprint"@,
                    scope_type: "media_file"@,
                    scope_id: id,
                    provider_kind: "local_audio_recurring"@,
                    priority: priority + 20,
                },
            ) <==> audio
            &&& plan.contains(
                Step::Queue {
                    job_type: "video_frame_hash"@,
                    scope_type: "media_file"@,
                    scope_id: id,
                    provider_kind: "local_visual_recurring"@,
                    priority: priority + 40,
                },
            ) <==> visual
            &&& plan.contains(
                Step::Queue {
                    job_type: "local_detector"@,
                    scope_type: "media_file"@,
                    scope_id: id,
                    provider_kind: "local_visual_recurring"@,
                    priority: priority + 50,
                },
            ) <==> visual
            &&& plan.contains(
                Step::Queue {
                    job_type: "local_detector"@,
                    scope_type: "season"@,
                    scope_id: id,
                    provider_kind: "local_audio_recurring"@,
                    priority: priority + 30,
                },
            ) <==> item_type != "movie"@ && exists|k: int|
                0 <= k < seasons.len() && (#[trigger] seasons[k]).season_id@ == id
                    && seasons[k].settings is Ok && seasons[k].settings->Ok_0 is Some
                    && json::json_get(seasons[k].settings->Ok_0->0@, "enabled"@) == Some(
                    Json::Bool(true),
                )
        }),
{
    lemma_local_words_differ();
    let q1 = queue(
        "audio_fingerprint"@,
        "media_file"@,
        id,
        "local_audio_recurring"@,
        priority + 20,
    );
    let q2 = queue(
        "video_frame_hash"@,
        "media_file"@,
        id,
        "local_visual_recurring"@,
        priority + 40,
    );
    let q3 = queue(
        "local_detector"@,
        "media_file"@,
        id,
        "local_visual_recurring"@,
        priority + 50,
    );
    let q4 = queue("local_detector"@, "season"@, id, "local_audio_recurring"@, priority + 30);
    let of_files = local_file_plan(item_type, files, priority);
    let of_seasons: Seq<Step> = if item_type == "movie"@ {
        Seq::empty()
    } else {
        season_plan(seasons, priority)
    };
    lemma_joined_contains(of_files, of_seasons, q1);
    lemma_joined_contains(of_files, of_seasons, q2);
    lemma_joined_contains(of_files, of_seasons, q3);
    lemma_joined_contains(of_files, of_seasons, q4);
    lemma_local_contains(item_type, files, priority, q1);
    lemma_local_contains(item_type, files, priority, q2);
    lemma_local_contains(item_type, files, priority, q3);
    lemma_local_contains(item_type, files, priority, q4);
    lemma_season_contains(seasons, priority, q1);
    lemma_season_contains(seasons, priority, q2);
    lemma_season_contains(seasons, priority, q3);
    lemma_season_contains(seasons, priority, q4);
    assert forall|k: int| 0 <= k < files.len() implies {
        let steps = local_steps(item_type, #[trigger] files[k], priority);
        let mine = files[k].media_file_id@ == id && files[k].settings is Ok;
        let a = mine && item_type != "movie"@ && on(
            files[k].settings->Ok_0@,
            "local_audio_recurring"@,
        );
        let v = mine && on(files[k].settings->Ok_0@, "local_visual_recurring"@);
        &&& steps.contains(q1) <==> a
        &&& steps.contains(q2) <==> v
        &&& steps.contains(q3) <==> v
        &&& !steps.contains(q4)
    } by {
        lemma_local_of_file(item_type, files[k], priority, id);
    }
    assert forall|k: int| 0 <= k < seasons.len() implies {
        let steps = season_steps(#[trigger] seasons[k], priority);
        let s = seasons[k];
        let mine = s.season_id@ == id && s.settings is Ok && s.settings->Ok_0 is Some
            && json::json_get(s.settings->Ok_0->0@, "enabled"@) == Some(Json::Bool(true));
        &&& steps.contains(q4) <==> mine
        &&& !steps.contains(q1)
        &&& !steps.contains(q2)
        &&& !steps.contains(q3)
    } by {
        let s = seasons[k];
        let steps = season_steps(s, priority);
        let q = queue(
            "local_detector"@,
            "season"@,
            s.season_id@,
            "local_audio_recurring"@,
            priority + 30,
        );
        if s.settings is Ok && settings::enabled_setting(json::opt_value(s.settings->Ok_0), false) {
            assert(steps =~= seq![q]);
            assert(steps[0] == q);
        }
    }
}

proof fn lemma_local_words_differ()
    ensures
        "audio_fingerprint"@ != "video_frame_hash"@,
        "audio_fingerprint"@ != "local_detector"@,
        "video_frame_hash"@ != "local_detector"@,
        "media_file"@ != "season"@,
        "local_audio_recurring"@ != "local_visual_recurring"@,
{
    reveal_strlit("audio_fingerprint");
    reveal_strlit("video_frame_hash");
    reveal_strlit("local_detector");
    reveal_strlit("media_file");
    reveal_strlit("season");
    reveal_strlit("local_audio_recurring");
    reveal_strlit("local_visual_recurring");
    assert("audio_fingerprint"@.len() == 17 && "video_frame_hash"@.len() == 16);
    assert("local_detector"@.len() == 14 && "media_file"@.len() == 10 && "season"@.len() == 6);
    assert("local_audio_recurring"@.len() == 21 && "local_visual_recurring"@.len() == 22);
}

proof fn lemma_local_of_file(
    item_type: Seq<char>,
    file: AnalysisFile,
    priority: int,
    id: Seq<char>,
)
    ensures
        ({
            let steps = local_steps(item_type, file, priority);
            let mine = file.media_file_id@ == id && file.settings is Ok;
            let a = mine && item_type != "movie"@ && on(
                file.settings->Ok_0@,
                "local_audio_recurring"@,
            );
            let v = mine && on(file.settings->Ok_0@, "local_visual_recurring"@);
            &&& steps.contains(
                queue(
                    "audio_fingerprint"@,
                    "media_file"@,
                    id,
                    "local_audio_recurring"@,
                    priority + 20,
                ),
            ) <==> a
            &&& steps.contains(
                queue(
                    "video_frame_hash"@,
                    "media_file"@,
                    id,
                    "local_visual_recurring"@,
                    priority + 40,
                ),
            ) <==> v
            &&& steps.contains(
                queue(
                    "local_detector"@,
                    "media_file"@,
                    id,
                    "local_visual_recurring"@,
                    priority + 50,
                ),
            ) <==> v
            &&& !steps.contains(
                queue(
                    "local_detector"@,
                    "season"@,
                    id,
                    "local_audio_recurring"@,
                    priority + 30,
                ),
            )
        }),
{
    lemma_local_words_differ();
    let steps = local_steps(item_type, file, priority);
    match file.settings {
        Err(_) => {},
        Ok(s) => {
            let f = file.media_file_id@;
            let has_audio = item_type != "movie"@ && provider_on(s@, "local_audio_recurring"@);
            let has_visual = provider_on(s@, "local_visual_recurring"@);
            let q1 = queue(
                "audio_fingerprint"@,
                "media_file"@,
                f,
                "local_audio_recurring"@,
                priority + 20,
            );
            let q2 = queue(
                "video_frame_hash"@,
                "media_file"@,
                f,
                "local_visual_recurring"@,
                priority + 40,
            );
            let q3 = queue(
                "local_detector"@,
                "media_file"@,
                f,
                "local_visual_recurring"@,
                priority + 50,
            );
            if has_audio && has_visual {
                assert(steps =~= seq![q1, q2, q3]);
                assert(steps[0] == q1 && steps[1] == q2 && steps[2] == q3);
            } else if has_audio {
                assert(steps =~= seq![q1]);
                assert(steps[0] == q1);
            } else if has_visual {
                assert(steps =~= seq![q2, q3]);
                assert(steps[0] == q2 && steps[1] == q3);
            } else {
                assert(steps =~= Seq::empty());
            }
        },
    }
}

/// An item is analysed as anime where its library holds anime, else as a series;
/// one that is asked for as anime is refused where it is none.
pub proof fn series_are_of_their_library(requested: Seq<char>, library_type: Seq<char>)
    ensures
        library_type == "anime"@ ==> series_type(requested, library_type) == Ok::<
            Seq<char>,
            Seq<char>,
        >("anime"@),
        library_type != "anime"@ && requested != "anime"@ ==> series_type(requested, library_type)
            == Ok::<Seq<char>, Seq<char>>("series"@),
        library_type != "anime"@ && requested == "anime"@ ==> series_type(requested, library_type)
            == Err::<Seq<char>, Seq<char>>("item is not anime"@),
{
    reveal_strlit("anime");
    reveal_strlit("series");
    assert("anime"@.len() == 5 && "series"@.len() == 6);
}

/// An analysis comes after nothing but what is more urgent than eighty, unless its
/// request says otherwise; what it says of a failure is cut to five hundred
/// characters.
pub proof fn analyses_by_default(b: bool, priority: i64, message: Seq<char>)
    ensures
        switch_or(Some(b), !b) == b,
        switch_or(None, b) == b,
        jobs::priority_of(None, DEFAULT_ANALYSIS_PRIORITY as int) == 80,
        0 <= priority <= 10_000 ==> jobs::priority_of(
            Some(priority),
            DEFAULT_ANALYSIS_PRIORITY as int,
        ) == priority,
        text::trim_seq(message).len() <= 500 ==> kept_reason(message) == text::trim_seq(message),
        text::trim_seq(message).len() > 500 ==> kept_reason(message) == text::trim_seq(
            message,
        ).take(500),
{
}

/// An analysis asks the providers and runs the detectors unless its request says
/// otherwise, forgets earlier answers only where it says so, and is of priority eighty
/// where it names none.
pub proof fn requests_to_analyse(request: &MediaSegmentItemAnalyzeRequest, r: AnalysisOptions)
    requires
        call_ensures(analysis_options, (request,), r),
    ensures
        r.force <==> request.force == Some(true),
        !r.include_builtins <==> request.include_builtins == Some(false),
        !r.include_local_detectors <==> request.include_local_detectors == Some(false),
        request.priority is None ==> r.priority == 80,
        request.priority is Some && 0 <= request.priority->0 <= 10_000 ==> r.priority
            == request.priority->0,
        0 <= r.priority <= 10_000,
{
}

/// A job that could not be queued is noted behind those before it, with what it was and
/// why; what was queued stays.
pub proof fn failures_are_noted(
    job_type: &str,
    scope_type: &str,
    scope_id: &str,
    provider_kind: &str,
    message: &str,
)
    ensures
        forall|s: &mut MediaSegmentItemAnalyzeSummary|
            #[trigger] call_ensures(
                push_item_analysis_failure,
                (s, job_type, scope_type, scope_id, provider_kind, message),
                (),
            ) ==> {
                let n = (*s).failures@.len();
                let f = (*final(s)).failures@;
                &&& f.len() == n + 1
                &&& f.drop_last() == (*s).failures@
                &&& f.last().job_type@ == job_type@ && f.last().scope_type@ == scope_type@
                    && f.last().scope_id@ == scope_id@ && f.last().provider_kind@ == provider_kind@
                &&& text::trim_seq(message@).len() <= 500 ==> f.last().reason@ == text::trim_seq(
                    message@,
                )
                &&& (*final(s)).jobs == (*s).jobs
                &&& (*final(s)).media_files_seen == (*s).media_files_seen
            },
{
}

} // verus!
