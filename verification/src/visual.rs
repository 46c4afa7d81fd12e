//! The detector of closing credits in the sampled frames of a file.
//!
//! Frames late in the file that are dark and full of text, or marked as such,
//! look like credits. They form runs; a run that lasts long enough becomes a
//! segment, which ends where a scene after the credits starts, or with the file.

use vstd::prelude::*;
use crate::candidate::{self, minimum_segment_duration, SegmentCandidateInput, Submission};
use crate::consts;
use crate::context::{MediaContext, ProviderMediaContext};
use crate::error::opt_text;
use crate::json::{self, saturate_i64, text_value, Json, JsonNumber, JsonValue};
use crate::order;
use crate::quantity::{self, round_millis, Quantity};
use crate::reading::{self, as_array, find_first_member, provider_seconds, visual_bool, visual_ratio};
use crate::runs::LocalVisualDetectorSummary;
use crate::settings::{self, provider_settings_enabled};
use crate::text;

verus! {

/// A sampled frame. The time is in microseconds, the ratios in millionths.
#[derive(Debug, Clone, Copy, PartialEq, Eq, Structural)]
pub struct VisualFrameSample {
    pub time: i64,
    pub black_ratio: i64,
    pub text_ratio: i64,
    pub credit_like: bool,
}

/// The names under which a payload holds its frames.
pub open spec fn frame_list_names() -> Seq<Seq<char>> {
    seq![
        "frames"@,
        "frame_hashes"@,
        "frameHashes"@,
        "video_frames"@,
        "videoFrames"@,
        "samples"@,
    ]
}

/// The names of the time of a frame.
pub open spec fn frame_time_names() -> Seq<Seq<char>> {
    seq![
        "time_seconds"@,
        "timeSeconds"@,
        "timestamp_seconds"@,
        "timestampSeconds"@,
        "timestamp"@,
        "pts_seconds"@,
        "ptsSeconds"@,
        "start_seconds"@,
        "startSeconds"@,
        "start"@,
        "time"@,
    ]
}

/// The names of the dark part of a frame.
pub open spec fn black_names() -> Seq<Seq<char>> {
    seq![
        "black_ratio"@,
        "blackRatio"@,
        "dark_ratio"@,
        "darkRatio"@,
        "luma_black_ratio"@,
        "lumaBlackRatio"@,
        "black"@,
        "dark"@,
    ]
}

/// The names of the part of a frame that shows text.
pub open spec fn text_names() -> Seq<Seq<char>> {
    seq![
        "text_ratio"@,
        "textRatio"@,
        "text_density"@,
        "textDensity"@,
        "edge_ratio"@,
        "edgeRatio"@,
        "ocr_text_ratio"@,
        "ocrTextRatio"@,
        "text"@,
    ]
}

/// The names of the mark of a frame of credits.
pub open spec fn credit_names() -> Seq<Seq<char>> {
    seq![
        "credit_like"@,
        "creditLike"@,
        "credits_like"@,
        "creditsLike"@,
        "is_credit"@,
        "isCredit"@,
        "is_credits"@,
        "isCredits"@,
    ]
}

/// The sample in one element of a payload: it has a time, which is not
/// negative; a ratio that is not there is nothing.
pub open spec fn sample_of(j: Json) -> Option<VisualFrameSample> {
    match reading::first_time(j, frame_time_names()) {
        Some(time) => if time < 0 {
            None
        } else {
            Some(
                VisualFrameSample {
                    time,
                    black_ratio: match reading::first_ratio(j, black_names()) {
                        Some(r) => r,
                        None => 0,
                    },
                    text_ratio: match reading::first_ratio(j, text_names()) {
                        Some(r) => r,
                        None => 0,
                    },
                    credit_like: reading::first_bool(j, credit_names()) == Some(true),
                },
            )
        },
        None => None,
    }
}

/// The samples among some elements.
pub open spec fn samples_in(a: Seq<Json>) -> Seq<VisualFrameSample>
    decreases a.len(),
{
    if a.len() == 0 {
        Seq::empty()
    } else {
        match sample_of(a.last()) {
            Some(f) => samples_in(a.drop_last()).push(f),
            None => samples_in(a.drop_last()),
        }
    }
}

/// The elements of a payload: those of the first list that it names, else its
/// own.
pub open spec fn payload_list(j: Json, list_names: Seq<Seq<char>>) -> Seq<Json> {
    let named = match reading::first_member(j, list_names) {
        Some(v) => reading::json_array(v),
        None => None,
    };
    match named {
        Some(a) => a,
        None => match reading::json_array(j) {
            Some(a) => a,
            None => Seq::empty(),
        },
    }
}

/// Whether `a` was sampled before `b`.
pub open spec fn earlier() -> spec_fn(VisualFrameSample, VisualFrameSample) -> bool {
    |a: VisualFrameSample, b: VisualFrameSample| a.time < b.time
}

/// The elements of a payload: those of the first list that it names, else its
/// own.
pub fn payload_elements<'a>(value: &'a JsonValue, keys: &Vec<&str>) -> (r: Option<&'a Vec<JsonValue>>)
    ensures
        match r {
            Some(a) => reading::elements_of(a@) == payload_list(value@, reading::names(keys@)),
            None => payload_list(value@, reading::names(keys@)).len() == 0,
        },
{
    match find_first_member(value, keys) {
        Some(v) => match as_array(v) {
            Some(a) => {
                return Some(a);
            },
            None => {},
        },
        None => {},
    }
    as_array(value)
}

fn read_sample(frame: &JsonValue) -> (r: Option<VisualFrameSample>)
    ensures
        r == sample_of(frame@),
{
    let time_keys: Vec<&str> = vec![
        "time_seconds",
        "timeSeconds",
        "timestamp_seconds",
        "timestampSeconds",
        "timestamp",
        "pts_seconds",
        "ptsSeconds",
        "start_seconds",
        "startSeconds",
        "start",
        "time",
    ];
    let black_keys: Vec<&str> = vec![
        "black_ratio",
        "blackRatio",
        "dark_ratio",
        "darkRatio",
        "luma_black_ratio",
        "lumaBlackRatio",
        "black",
        "dark",
    ];
    let text_keys: Vec<&str> = vec![
        "text_ratio",
        "textRatio",
        "text_density",
        "textDensity",
        "edge_ratio",
        "edgeRatio",
        "ocr_text_ratio",
        "ocrTextRatio",
        "text",
    ];
    let credit_keys: Vec<&str> = vec![
        "credit_like",
        "creditLike",
        "credits_like",
        "creditsLike",
        "is_credit",
        "isCredit",
        "is_credits",
        "isCredits",
    ];
    proof {
        assert(reading::names(time_keys@) =~= frame_time_names());
        assert(reading::names(black_keys@) =~= black_names());
        assert(reading::names(text_keys@) =~= text_names());
        assert(reading::names(credit_keys@) =~= credit_names());
    }
    let time: i64 = match provider_seconds(frame, &time_keys) {
        Some(t) => t,
        None => {
            return None;
        },
    };
    if time < 0 {
        return None;
    }
    let black_ratio: i64 = match visual_ratio(frame, &black_keys) {
        Some(r) => r,
        None => 0,
    };
    let text_ratio: i64 = match visual_ratio(frame, &text_keys) {
        Some(r) => r,
        None => 0,
    };
    Some(
        VisualFrameSample {
            time,
            black_ratio,
            text_ratio,
            credit_like: visual_bool(frame, &credit_keys),
        },
    )
}

/// The samples in some elements, by their time; those of one time stay in
/// their order.
pub open spec fn samples_of(j: Json) -> Seq<VisualFrameSample> {
    order::arranged(samples_in(payload_list(j, frame_list_names())), earlier())
}

fn place_sample(out: &mut Vec<VisualFrameSample>, f: VisualFrameSample)
    ensures
        final(out)@ == order::place_by(old(out)@, f, earlier()),
{
    let n: usize = out.len();
    let mut p: usize = 0;
    while p < n && out[p].time <= f.time
        invariant
            p <= n == out@.len(),
            forall|i: int| 0 <= i < p ==> !earlier()(f, #[trigger] out@[i]),
        decreases n - p,
    {
        p += 1;
    }
    proof {
        order::lemma_place_at(out@, f, earlier(), p as int);
    }
    out.insert(p, f);
}

/// The frames of a payload, by their time.
pub fn visual_frame_samples_from_value(value: &JsonValue) -> (r: Vec<VisualFrameSample>)
    ensures
        r@ == samples_of(value@),
        all_sound(r@),
{
    proof {
        samples_are_sound_and_in_order(value@);
    }
    let list_keys: Vec<&str> = vec![
        "frames",
        "frame_hashes",
        "frameHashes",
        "video_frames",
        "videoFrames",
        "samples",
    ];
    proof {
        assert(reading::names(list_keys@) =~= frame_list_names());
    }
    let mut out: Vec<VisualFrameSample> = Vec::new();
    match payload_elements(value, &list_keys) {
        Some(a) => {
            let ghost all = reading::elements_of(a@);
            let mut i: usize = 0;
            proof {
                assert(all.take(0) =~= Seq::empty());
                assert(samples_in(all.take(0)) =~= Seq::empty());
            }
            while i < a.len()
                invariant
                    i <= a@.len(),
                    all == reading::elements_of(a@),
                    out@ == order::arranged(samples_in(all.take(i as int)), earlier()),
                decreases a@.len() - i,
            {
                proof {
                    assert(all.take(i + 1).drop_last() =~= all.take(i as int));
                    assert(all.take(i + 1).last() == a@[i as int]@);
                }
                let ghost before = samples_in(all.take(i as int));
                match read_sample(&a[i]) {
                    Some(f) => {
                        place_sample(&mut out, f);
                        proof {
                            assert(before.push(f).drop_last() =~= before);
                        }
                    },
                    None => {},
                }
                i += 1;
            }
            proof {
                assert(all.take(a@.len() as int) =~= all);
            }
        },
        None => {
            proof {
                assert(samples_in(payload_list(value@, frame_list_names())) =~= Seq::empty());
            }
        },
    }
    out
}

/// What the settings say of the detector. Times are in microseconds, ratios and
/// the fraction in millionths.
#[derive(Debug, Clone, Copy, PartialEq, Eq, Structural)]
pub struct VisualTuning {
    pub min_start_fraction: i64,
    pub max_frame_gap: i64,
    pub min_frame_count: usize,
    pub min_span: i64,
    pub scene_min_frames: usize,
    pub scene_min_span: i64,
    pub black_threshold: i64,
    pub text_threshold: i64,
}

/// What some settings say of the detector.
pub open spec fn tuning_of(s: Option<Json>) -> VisualTuning {
    VisualTuning {
        min_start_fraction: settings::fraction_setting(
            s,
            "min_start_fraction"@,
            "minStartFraction"@,
            500_000,
            950_000,
            consts::LOCAL_VISUAL_CREDITS_MIN_START_FRACTION as int,
        ) as i64,
        max_frame_gap: settings::fraction_setting(
            s,
            "max_frame_gap_seconds"@,
            "maxFrameGapSeconds"@,
            5_000_000,
            300_000_000,
            consts::LOCAL_VISUAL_CREDITS_MAX_FRAME_GAP_MICROS as int,
        ) as i64,
        min_frame_count: settings::whole_setting(
            s,
            "min_frame_count"@,
            "minFrameCount"@,
            2,
            20,
            consts::LOCAL_VISUAL_CREDITS_MIN_FRAME_COUNT as int,
        ) as usize,
        min_span: settings::fraction_setting(
            s,
            "min_span_seconds"@,
            "minSpanSeconds"@,
            10_000_000,
            600_000_000,
            consts::LOCAL_VISUAL_CREDITS_MIN_SPAN_MICROS as int,
        ) as i64,
        scene_min_frames: settings::whole_setting(
            s,
            "post_credit_scene_min_frames"@,
            "postCreditSceneMinFrames"@,
            1,
            20,
            consts::LOCAL_VISUAL_POST_CREDIT_SCENE_MIN_FRAMES as int,
        ) as usize,
        scene_min_span: settings::fraction_setting(
            s,
            "post_credit_scene_min_span_seconds"@,
            "postCreditSceneMinSpanSeconds"@,
            5_000_000,
            300_000_000,
            consts::LOCAL_VISUAL_POST_CREDIT_SCENE_MIN_SPAN_MICROS as int,
        ) as i64,
        black_threshold: settings::fraction_setting(
            s,
            "black_ratio_threshold"@,
            "blackRatioThreshold"@,
            100_000,
            1_000_000,
            consts::LOCAL_VISUAL_CREDITS_BLACK_RATIO_THRESHOLD as int,
        ) as i64,
        text_threshold: settings::fraction_setting(
            s,
            "text_ratio_threshold"@,
            "textRatioThreshold"@,
            10_000,
            1_000_000,
            consts::LOCAL_VISUAL_CREDITS_TEXT_RATIO_THRESHOLD as int,
        ) as i64,
    }
}

/// What some settings say of the detector.
pub fn visual_tuning(provider_settings: Option<&JsonValue>) -> (r: VisualTuning)
    ensures
        r == tuning_of(json::opt_json(provider_settings)),
{
    VisualTuning {
        min_start_fraction: settings::local_visual_min_start_fraction(provider_settings),
        max_frame_gap: settings::local_visual_max_frame_gap_micros(provider_settings),
        min_frame_count: settings::local_visual_min_frame_count(provider_settings),
        min_span: settings::local_visual_min_span_micros(provider_settings),
        scene_min_frames: settings::local_visual_post_credit_scene_min_frames(provider_settings),
        scene_min_span: settings::local_visual_post_credit_scene_min_span_micros(provider_settings),
        black_threshold: settings::local_visual_black_ratio_threshold(provider_settings),
        text_threshold: settings::local_visual_text_ratio_threshold(provider_settings),
    }
}

/// Whether a frame looks like credits.
pub open spec fn credits_like(f: VisualFrameSample, t: VisualTuning) -> bool {
    f.credit_like || (f.black_ratio >= t.black_threshold && f.text_ratio >= t.text_threshold)
}

/// Whether a frame looks like credits.
pub fn visual_frame_looks_like_credits(frame: &VisualFrameSample, tuning: &VisualTuning) -> (r: bool)
    ensures
        r == credits_like(*frame, *tuning),
{
    frame.credit_like || (frame.black_ratio >= tuning.black_threshold && frame.text_ratio
        >= tuning.text_threshold)
}

/// Whether a frame lies late in a file, and not beyond its end.
pub open spec fn late(f: VisualFrameSample, duration: i64, t: VisualTuning) -> bool {
    f.time * 1_000_000 >= duration * t.min_start_fraction && f.time <= duration
        + consts::DURATION_TOLERANCE_MICROS
}

/// The frames that lie late in a file.
pub open spec fn late_of(s: Seq<VisualFrameSample>, duration: i64, t: VisualTuning) -> Seq<
    VisualFrameSample,
>
    decreases s.len(),
{
    if s.len() == 0 {
        Seq::empty()
    } else if late(s.last(), duration, t) {
        late_of(s.drop_last(), duration, t).push(s.last())
    } else {
        late_of(s.drop_last(), duration, t)
    }
}

/// How many frames look like credits.
pub open spec fn credits_count(s: Seq<VisualFrameSample>, t: VisualTuning) -> nat
    decreases s.len(),
{
    if s.len() == 0 {
        0
    } else {
        credits_count(s.drop_last(), t) + if credits_like(s.last(), t) {
            1nat
        } else {
            0
        }
    }
}

/// The frames that do not look like credits.
pub open spec fn scene_frames(s: Seq<VisualFrameSample>, t: VisualTuning) -> Seq<VisualFrameSample>
    decreases s.len(),
{
    if s.len() == 0 {
        Seq::empty()
    } else if credits_like(s.last(), t) {
        scene_frames(s.drop_last(), t)
    } else {
        scene_frames(s.drop_last(), t).push(s.last())
    }
}

/// Where a scene among some frames starts: there are enough frames that do not
/// look like credits, over a long enough time.
pub open spec fn scene_start(s: Seq<VisualFrameSample>, t: VisualTuning) -> Option<i64> {
    let scene = scene_frames(s, t);
    if scene.len() == 0 || scene.len() < t.scene_min_frames || scene.last().time - scene[0].time
        < t.scene_min_span {
        None
    } else {
        Some(scene[0].time)
    }
}

/// The place of the last frame of credits before `n`; there is one.
pub open spec fn last_credit(s: Seq<VisualFrameSample>, n: int, t: VisualTuning) -> int
    decreases n,
{
    if n <= 0 {
        0
    } else if credits_like(s[n - 1], t) {
        n - 1
    } else {
        last_credit(s, n - 1, t)
    }
}

/// Whether a run of credits ends between the frames `p` and `n`: too much time
/// passes, or a scene lies between them.
pub open spec fn run_breaks(s: Seq<VisualFrameSample>, p: int, n: int, t: VisualTuning) -> bool {
    s[n].time - s[p].time > t.max_frame_gap || scene_start(s.subrange(p + 1, n), t) is Some
}

/// The runs of credits among the first `n` frames.
pub open spec fn runs_in(s: Seq<VisualFrameSample>, n: int, t: VisualTuning) -> Seq<
    Seq<VisualFrameSample>,
>
    decreases n,
{
    if n <= 0 {
        Seq::empty()
    } else {
        let prior = runs_in(s, n - 1, t);
        if !credits_like(s[n - 1], t) {
            prior
        } else if prior.len() == 0 || run_breaks(s, last_credit(s, n - 1, t), n - 1, t) {
            prior.push(seq![s[n - 1]])
        } else {
            prior.drop_last().push(prior.last().push(s[n - 1]))
        }
    }
}

/// The first place from `i` on where a frame lies after `time`.
pub open spec fn first_after(s: Seq<VisualFrameSample>, time: i64, i: int) -> int
    decreases s.len() - i,
{
    if i >= s.len() || s[i].time > time {
        i
    } else {
        first_after(s, time, i + 1)
    }
}

/// The first place from `i` on of a frame of credits.
pub open spec fn next_credit(s: Seq<VisualFrameSample>, i: int, t: VisualTuning) -> int
    decreases s.len() - i,
{
    if i >= s.len() || credits_like(s[i], t) {
        i
    } else {
        next_credit(s, i + 1, t)
    }
}

/// Where the scene after a frame of credits starts.
pub open spec fn scene_after(s: Seq<VisualFrameSample>, time: i64, t: VisualTuning) -> Option<i64> {
    let from = first_after(s, time, 0);
    if from >= s.len() {
        None
    } else {
        scene_start(s.subrange(from, next_credit(s, from, t)), t)
    }
}

/// A segment of credits that was found. Times are in microseconds, the ratios
/// and the confidence in millionths; an average is rounded down.
#[derive(Debug, Clone, Copy, PartialEq, Eq, Structural)]
pub struct LocalVisualDetectedSegment {
    pub start: i64,
    pub end: i64,
    pub confidence: i64,
    pub frame_count: usize,
    pub evidence_span: i64,
    pub first_frame: i64,
    pub last_frame: i64,
    pub average_black_ratio: i64,
    pub average_text_ratio: i64,
    pub post_credit_scene_start: Option<i64>,
}

/// The sum of the dark parts.
pub open spec fn black_sum(s: Seq<VisualFrameSample>) -> int
    decreases s.len(),
{
    if s.len() == 0 {
        0
    } else {
        black_sum(s.drop_last()) + s.last().black_ratio
    }
}

/// The sum of the parts that show text.
pub open spec fn text_sum(s: Seq<VisualFrameSample>) -> int
    decreases s.len(),
{
    if s.len() == 0 {
        0
    } else {
        text_sum(s.drop_last()) + s.last().text_ratio
    }
}

/// `n`, but no more than `most` and no less than nothing.
pub open spec fn capped(n: int, most: int) -> int {
    if n < 0 {
        0
    } else if n > most {
        most
    } else {
        n
    }
}

/// How sure the detector is of a run, in millionths: more frames, a longer time,
/// darker frames and more text each add to it.
pub open spec fn confidence_of(count: int, span: int, black: int, text: int) -> int {
    let sum = consts::LOCAL_VISUAL_CREDITS_MIN_CONFIDENCE + capped(
        (count - consts::LOCAL_VISUAL_CREDITS_MIN_FRAME_COUNT) * 15_000,
        60_000,
    ) + capped(span / 300, 50_000) + capped(
        (black - consts::LOCAL_VISUAL_CREDITS_BLACK_RATIO_THRESHOLD) * 8 / 100,
        30_000,
    ) + capped((text - consts::LOCAL_VISUAL_CREDITS_TEXT_RATIO_THRESHOLD) / 10, 30_000);
    if sum > 960_000 {
        960_000
    } else {
        sum
    }
}

/// A time in microseconds at the nearest millisecond.
pub open spec fn rounded(n: int) -> i64 {
    json::clamp_i64(quantity::nearest_millis(json::clamp_i64(n) as int) * 1000)
}

/// Rounding keeps the order of times.
pub proof fn rounding_keeps_order(a: int, b: int)
    requires
        a <= b,
    ensures
        rounded(a) <= rounded(b),
{
}

/// The segment that a run of credits becomes: the run has enough frames over a
/// long enough time, and the segment is not too short.
pub open spec fn segment_of(
    s: Seq<VisualFrameSample>,
    run: Seq<VisualFrameSample>,
    duration: i64,
    t: VisualTuning,
) -> Option<LocalVisualDetectedSegment> {
    let first = run[0].time;
    let last = run.last().time;
    let shortest = candidate::shortest_segment("credits"@);
    let scene = scene_after(s, last, t);
    let end = match scene {
        Some(x) => x,
        None => duration,
    };
    if run.len() < t.min_frame_count || last - first < t.min_span || duration - first < shortest
        || end - first < shortest {
        None
    } else {
        let black = black_sum(run) / run.len() as int;
        let text = text_sum(run) / run.len() as int;
        Some(
            LocalVisualDetectedSegment {
                start: rounded(first as int),
                end: rounded(end as int),
                confidence: confidence_of(run.len() as int, last - first, black, text) as i64,
                frame_count: run.len() as usize,
                evidence_span: rounded(last - first),
                first_frame: rounded(first as int),
                last_frame: rounded(last as int),
                average_black_ratio: black as i64,
                average_text_ratio: text as i64,
                post_credit_scene_start: match scene {
                    Some(x) => Some(rounded(x as int)),
                    None => None,
                },
            },
        )
    }
}

/// The segments that some runs become.
pub open spec fn segments_of(
    s: Seq<VisualFrameSample>,
    runs: Seq<Seq<VisualFrameSample>>,
    duration: i64,
    t: VisualTuning,
) -> Seq<LocalVisualDetectedSegment>
    decreases runs.len(),
{
    if runs.len() == 0 {
        Seq::empty()
    } else {
        match segment_of(s, runs.last(), duration, t) {
            Some(c) => segments_of(s, runs.drop_last(), duration, t).push(c),
            None => segments_of(s, runs.drop_last(), duration, t),
        }
    }
}

/// Whether `a` starts before `b`.
pub open spec fn starts_before() -> spec_fn(
    LocalVisualDetectedSegment,
    LocalVisualDetectedSegment,
) -> bool {
    |a: LocalVisualDetectedSegment, b: LocalVisualDetectedSegment| a.start < b.start
}

/// The segments of credits in a file, by their start.
pub open spec fn detected(frames: Seq<VisualFrameSample>, duration: i64, t: VisualTuning) -> Seq<
    LocalVisualDetectedSegment,
> {
    if duration <= 0 {
        Seq::empty()
    } else {
        let s = late_of(frames, duration, t);
        order::arranged(segments_of(s, runs_in(s, s.len() as int, t), duration, t), starts_before())
    }
}

/// Whether a sample holds what can be read from a payload.
pub open spec fn sound(f: VisualFrameSample) -> bool {
    f.time >= 0 && 0 <= f.black_ratio <= 1_000_000 && 0 <= f.text_ratio <= 1_000_000
}

/// Whether all of some samples hold what can be read from a payload.
pub open spec fn all_sound(s: Seq<VisualFrameSample>) -> bool {
    forall|i: int| 0 <= i < s.len() ==> sound(#[trigger] s[i])
}

fn late_frames(frames: &Vec<VisualFrameSample>, duration: i64, tuning: &VisualTuning) -> (r: Vec<
    VisualFrameSample,
>)
    requires
        all_sound(frames@),
        duration > 0,
    ensures
        r@ == late_of(frames@, duration, *tuning),
        all_sound(r@),
{
    let mut out: Vec<VisualFrameSample> = Vec::new();
    let mut i: usize = 0;
    proof {
        assert(frames@.take(0) =~= Seq::empty());
    }
    while i < frames.len()
        invariant
            i <= frames@.len(),
            duration > 0,
            all_sound(frames@),
            all_sound(out@),
            out@ == late_of(frames@.take(i as int), duration, *tuning),
        decreases frames@.len() - i,
    {
        let f = frames[i];
        proof {
            assert(sound(frames@[i as int]));
            assert(frames@.take(i + 1).drop_last() =~= frames@.take(i as int));
            assert(frames@.take(i + 1).last() == f);
            assert(-0x8000_0000_0000_0000 * 0x8000_0000_0000_0000 <= duration
                * tuning.min_start_fraction <= 0x8000_0000_0000_0000 * 0x8000_0000_0000_0000)
                by (nonlinear_arith)
                requires
                    -0x8000_0000_0000_0000 <= tuning.min_start_fraction <= 0x8000_0000_0000_0000,
                    0 <= duration <= 0x8000_0000_0000_0000,
            ;
        }
        let earliest: i128 = duration as i128 * tuning.min_start_fraction as i128;
        if f.time as i128 * 1_000_000i128 >= earliest && f.time as i128 <= duration as i128
            + consts::DURATION_TOLERANCE_MICROS as i128 {
            out.push(f);
        }
        i += 1;
    }
    proof {
        assert(frames@.take(frames@.len() as int) =~= frames@);
    }
    out
}

fn count_credits(frames: &Vec<VisualFrameSample>, tuning: &VisualTuning) -> (r: usize)
    ensures
        r == credits_count(frames@, *tuning),
{
    let mut n: usize = 0;
    let mut i: usize = 0;
    proof {
        assert(frames@.take(0) =~= Seq::empty());
    }
    while i < frames.len()
        invariant
            i <= frames@.len(),
            n <= i,
            n == credits_count(frames@.take(i as int), *tuning),
        decreases frames@.len() - i,
    {
        proof {
            assert(frames@.take(i + 1).drop_last() =~= frames@.take(i as int));
        }
        if visual_frame_looks_like_credits(&frames[i], tuning) {
            n += 1;
        }
        i += 1;
    }
    proof {
        assert(frames@.take(frames@.len() as int) =~= frames@);
    }
    n
}

/// Where a scene among the frames from `from` to `to` starts.
pub fn post_credit_scene_start_in_frames(
    frames: &Vec<VisualFrameSample>,
    from: usize,
    to: usize,
    tuning: &VisualTuning,
) -> (r: Option<i64>)
    requires
        from <= to <= frames@.len(),
    ensures
        r == scene_start(frames@.subrange(from as int, to as int), *tuning),
{
    let mut count: usize = 0;
    let mut first: i64 = 0;
    let mut last: i64 = 0;
    let mut i: usize = from;
    proof {
        assert(frames@.subrange(from as int, from as int) =~= Seq::empty());
    }
    while i < to
        invariant
            from <= i <= to <= frames@.len(),
            count <= i - from,
            ({
                let scene = scene_frames(frames@.subrange(from as int, i as int), *tuning);
                count == scene.len() && (count > 0 ==> first == scene[0].time && last
                    == scene.last().time)
            }),
        decreases to - i,
    {
        proof {
            assert(frames@.subrange(from as int, i + 1).drop_last() =~= frames@.subrange(
                from as int,
                i as int,
            ));
            assert(frames@.subrange(from as int, i + 1).last() == frames@[i as int]);
        }
        if !visual_frame_looks_like_credits(&frames[i], tuning) {
            if count == 0 {
                first = frames[i].time;
            }
            last = frames[i].time;
            count += 1;
        }
        i += 1;
    }
    if count == 0 || count < tuning.scene_min_frames {
        return None;
    }
    if (last as i128 - first as i128) < tuning.scene_min_span as i128 {
        return None;
    }
    Some(first)
}

/// Where the scene after a frame of credits starts.
pub fn post_credit_scene_start_after(
    frames: &Vec<VisualFrameSample>,
    last_credit_time: i64,
    tuning: &VisualTuning,
) -> (r: Option<i64>)
    ensures
        r == scene_after(frames@, last_credit_time, *tuning),
{
    let n: usize = frames.len();
    let mut from: usize = 0;
    while from < n && frames[from].time <= last_credit_time
        invariant
            from <= n == frames@.len(),
            first_after(frames@, last_credit_time, 0) == first_after(
                frames@,
                last_credit_time,
                from as int,
            ),
        decreases n - from,
    {
        from += 1;
    }
    if from >= n {
        return None;
    }
    let mut to: usize = from;
    while to < n && !visual_frame_looks_like_credits(&frames[to], tuning)
        invariant
            from <= to <= n == frames@.len(),
            next_credit(frames@, from as int, *tuning) == next_credit(
                frames@,
                to as int,
                *tuning,
            ),
        decreases n - to,
    {
        to += 1;
    }
    post_credit_scene_start_in_frames(frames, from, to, tuning)
}

/// The frames of each run.
pub open spec fn run_views(v: Seq<Vec<VisualFrameSample>>) -> Seq<Seq<VisualFrameSample>> {
    v.map_values(|r: Vec<VisualFrameSample>| r@)
}

proof fn lemma_runs_nonempty(s: Seq<VisualFrameSample>, n: int, t: VisualTuning)
    requires
        0 <= n <= s.len(),
    ensures
        forall|i: int|
            0 <= i < runs_in(s, n, t).len() ==> 0 < (#[trigger] runs_in(s, n, t)[i]).len() <= n,
        all_sound(s) ==> forall|i: int| 0 <= i < runs_in(s, n, t).len() ==> all_sound(
            #[trigger] runs_in(s, n, t)[i],
        ),
    decreases n,
{
    if n > 0 {
        lemma_runs_nonempty(s, n - 1, t);
        let prior = runs_in(s, n - 1, t);
        let now = runs_in(s, n, t);
        if all_sound(s) {
            assert(sound(s[n - 1]));
        }
        assert forall|i: int| 0 <= i < now.len() implies 0 < (#[trigger] now[i]).len() <= n && (
        all_sound(s) ==> all_sound(now[i])) by {
            if i < prior.len() {
                assert(0 < prior[i].len() <= n - 1);
                if i == prior.len() - 1 && now.len() == prior.len() && now != prior {
                    assert(now[i] == prior[i].push(s[n - 1]));
                } else {
                    assert(now[i] == prior[i]);
                }
            }
        }
    }
}

fn credit_runs(frames: &Vec<VisualFrameSample>, tuning: &VisualTuning) -> (r: Vec<
    Vec<VisualFrameSample>,
>)
    ensures
        run_views(r@) == runs_in(frames@, frames@.len() as int, *tuning),
{
    let ghost s = frames@;
    let mut runs: Vec<Vec<VisualFrameSample>> = Vec::new();
    let mut current: Vec<VisualFrameSample> = Vec::new();
    let mut previous: usize = 0;
    let mut i: usize = 0;
    let n: usize = frames.len();
    while i < n
        invariant
            i <= n == frames@.len(),
            s == frames@,
            current@.len() == 0 ==> runs@.len() == 0 && runs_in(s, i as int, *tuning)
                =~= Seq::empty(),
            current@.len() > 0 ==> runs_in(s, i as int, *tuning) == run_views(runs@).push(current@),
            current@.len() > 0 ==> previous == last_credit(s, i as int, *tuning) && previous < i,
        decreases n - i,
    {
        let f = frames[i];
        if visual_frame_looks_like_credits(&f, tuning) {
            let ghost before = run_views(runs@);
            let ghost open_run = current@;
            proof {
                if open_run.len() > 0 {
                    assert(before.push(open_run).drop_last() =~= before);
                }
            }
            let splits = current.len() > 0 && (f.time as i128 - frames[previous].time as i128
                > tuning.max_frame_gap as i128 || post_credit_scene_start_in_frames(
                frames,
                previous + 1,
                i,
                tuning,
            ).is_some());
            if splits {
                runs.push(current);
                current = Vec::new();
                proof {
                    assert(run_views(runs@) =~= before.push(open_run));
                }
            }
            current.push(f);
            proof {
                if splits || open_run.len() == 0 {
                    assert(current@ =~= seq![f]);
                }
                if open_run.len() == 0 {
                    assert(run_views(runs@) =~= Seq::empty());
                }
            }
            previous = i;
        }
        i += 1;
    }
    if current.len() > 0 {
        let ghost before = run_views(runs@);
        let ghost open_run = current@;
        runs.push(current);
        proof {
            assert(run_views(runs@) =~= before.push(open_run));
        }
    } else {
        proof {
            assert(run_views(runs@) =~= Seq::empty());
        }
    }
    runs
}

/// How sure the detector is of a run, in millionths.
pub fn local_visual_confidence(
    frame_count: usize,
    evidence_span: i128,
    average_black_ratio: i64,
    average_text_ratio: i64,
) -> (r: i64)
    requires
        0 <= average_black_ratio <= 1_000_000,
        0 <= average_text_ratio <= 1_000_000,
    ensures
        r == confidence_of(
            frame_count as int,
            evidence_span as int,
            average_black_ratio as int,
            average_text_ratio as int,
        ),
{
    let frame_bonus: i64 = if frame_count <= 3 {
        0
    } else if frame_count >= 7 {
        60_000
    } else {
        (frame_count - 3) as i64 * 15_000
    };
    let span_bonus: i64 = if evidence_span < 0 {
        0
    } else if evidence_span / 300 > 50_000 {
        50_000
    } else {
        (evidence_span / 300) as i64
    };
    let dark: i64 = if average_black_ratio < 700_000 {
        0
    } else {
        (average_black_ratio - 700_000) * 8 / 100
    };
    let dark_bonus: i64 = if dark > 30_000 {
        30_000
    } else {
        dark
    };
    let texts: i64 = if average_text_ratio < 80_000 {
        0
    } else {
        (average_text_ratio - 80_000) / 10
    };
    let text_bonus: i64 = if texts > 30_000 {
        30_000
    } else {
        texts
    };
    let sum: i64 = 820_000 + frame_bonus + span_bonus + dark_bonus + text_bonus;
    if sum > 960_000 {
        960_000
    } else {
        sum
    }
}

proof fn lemma_sums(s: Seq<VisualFrameSample>)
    requires
        all_sound(s),
    ensures
        0 <= black_sum(s) <= 1_000_000 * s.len(),
        0 <= text_sum(s) <= 1_000_000 * s.len(),
    decreases s.len(),
{
    if s.len() > 0 {
        assert(sound(s[s.len() - 1]));
        assert(all_sound(s.drop_last())) by {
            assert forall|i: int| 0 <= i < s.drop_last().len() implies sound(
                #[trigger] s.drop_last()[i],
            ) by {
                assert(sound(s[i]));
            }
        }
        lemma_sums(s.drop_last());
    }
}

/// The average dark part and text part of a run.
fn averages(run: &Vec<VisualFrameSample>) -> (r: (i64, i64))
    requires
        all_sound(run@),
        run@.len() > 0,
    ensures
        r.0 == black_sum(run@) / run@.len() as int,
        r.1 == text_sum(run@) / run@.len() as int,
        0 <= r.0 <= 1_000_000,
        0 <= r.1 <= 1_000_000,
{
    let n: usize = run.len();
    let mut black: i128 = 0;
    let mut text: i128 = 0;
    let mut i: usize = 0;
    proof {
        assert(run@.take(0) =~= Seq::empty());
    }
    while i < n
        invariant
            i <= n == run@.len(),
            all_sound(run@),
            black == black_sum(run@.take(i as int)),
            text == text_sum(run@.take(i as int)),
            0 <= black <= 1_000_000 * i,
            0 <= text <= 1_000_000 * i,
        decreases n - i,
    {
        proof {
            assert(sound(run@[i as int]));
            assert(run@.take(i + 1).drop_last() =~= run@.take(i as int));
        }
        black += run[i].black_ratio as i128;
        text += run[i].text_ratio as i128;
        i += 1;
    }
    proof {
        assert(run@.take(n as int) =~= run@);
        assert(0 <= black / (n as i128) <= 1_000_000) by (nonlinear_arith)
            requires
                n > 0,
                0 <= black <= 1_000_000 * n,
        ;
        assert(0 <= text / (n as i128) <= 1_000_000) by (nonlinear_arith)
            requires
                n > 0,
                0 <= text <= 1_000_000 * n,
        ;
    }
    ((black / n as i128) as i64, (text / n as i128) as i64)
}

fn detected_segment(
    frames: &Vec<VisualFrameSample>,
    run: &Vec<VisualFrameSample>,
    duration: i64,
    tuning: &VisualTuning,
) -> (r: Option<LocalVisualDetectedSegment>)
    requires
        run@.len() > 0,
        all_sound(run@),
    ensures
        r == segment_of(frames@, run@, duration, *tuning),
{
    let first: i64 = run[0].time;
    let last: i64 = run[run.len() - 1].time;
    let span: i128 = last as i128 - first as i128;
    let shortest: i128 = minimum_segment_duration("credits") as i128;
    if run.len() < tuning.min_frame_count || span < tuning.min_span as i128 {
        return None;
    }
    if duration as i128 - (first as i128) < shortest {
        return None;
    }
    let scene = post_credit_scene_start_after(frames, last, tuning);
    let end: i64 = match scene {
        Some(x) => x,
        None => duration,
    };
    if end as i128 - (first as i128) < shortest {
        return None;
    }
    let (black, text) = averages(run);
    Some(
        LocalVisualDetectedSegment {
            start: round_millis(first),
            end: round_millis(end),
            confidence: local_visual_confidence(run.len(), span, black, text),
            frame_count: run.len(),
            evidence_span: round_millis(saturate_i64(span)),
            first_frame: round_millis(first),
            last_frame: round_millis(last),
            average_black_ratio: black,
            average_text_ratio: text,
            post_credit_scene_start: match scene {
                Some(x) => Some(round_millis(x)),
                None => None,
            },
        },
    )
}

fn place_segment(out: &mut Vec<LocalVisualDetectedSegment>, c: LocalVisualDetectedSegment)
    ensures
        final(out)@ == order::place_by(old(out)@, c, starts_before()),
{
    let n: usize = out.len();
    let mut p: usize = 0;
    while p < n && out[p].start <= c.start
        invariant
            p <= n == out@.len(),
            forall|i: int| 0 <= i < p ==> !starts_before()(c, #[trigger] out@[i]),
        decreases n - p,
    {
        p += 1;
    }
    proof {
        order::lemma_place_at(out@, c, starts_before(), p as int);
    }
    out.insert(p, c);
}

/// What the detector found in the frames of a file.
#[derive(Debug, Clone, Default)]
pub struct LocalVisualDetectionResult {
    pub credits_like_frames: usize,
    pub sustained_runs: usize,
    pub candidates: Vec<LocalVisualDetectedSegment>,
}

/// Finds the segments of credits in the frames of a file.
pub fn detect_visual_credits_segment(
    frames: &Vec<VisualFrameSample>,
    duration: i64,
    provider_settings: Option<&JsonValue>,
) -> (r: LocalVisualDetectionResult)
    requires
        all_sound(frames@),
    ensures
        ({
            let t = tuning_of(json::opt_json(provider_settings));
            &&& r.candidates@ == detected(frames@, duration, t)
            &&& r.sustained_runs == r.candidates@.len()
            &&& r.credits_like_frames == if duration <= 0 {
                0
            } else {
                credits_count(late_of(frames@, duration, t), t)
            }
        }),
{
    let mut candidates: Vec<LocalVisualDetectedSegment> = Vec::new();
    if duration <= 0 {
        return LocalVisualDetectionResult {
            credits_like_frames: 0,
            sustained_runs: 0,
            candidates,
        };
    }
    let tuning = visual_tuning(provider_settings);
    let late_ones = late_frames(frames, duration, &tuning);
    let credits_like_frames: usize = count_credits(&late_ones, &tuning);
    let runs = credit_runs(&late_ones, &tuning);
    let ghost s = late_ones@;
    let ghost all = run_views(runs@);
    proof {
        lemma_runs_nonempty(s, s.len() as int, tuning);
        assert(all.take(0) =~= Seq::empty());
    }
    let mut i: usize = 0;
    while i < runs.len()
        invariant
            i <= runs@.len(),
            s == late_ones@,
            all == run_views(runs@),
            forall|k: int| 0 <= k < all.len() ==> (#[trigger] all[k]).len() > 0,
            forall|k: int| 0 <= k < all.len() ==> all_sound(#[trigger] all[k]),
            candidates@ == order::arranged(
                segments_of(s, all.take(i as int), duration, tuning),
                starts_before(),
            ),
        decreases runs@.len() - i,
    {
        proof {
            assert(all.take(i + 1).drop_last() =~= all.take(i as int));
            assert(all[i as int] == runs@[i as int]@);
        }
        let ghost before = segments_of(s, all.take(i as int), duration, tuning);
        match detected_segment(&late_ones, &runs[i], duration, &tuning) {
            Some(c) => {
                place_segment(&mut candidates, c);
                proof {
                    assert(before.push(c).drop_last() =~= before);
                }
            },
            None => {},
        }
        i += 1;
    }
    proof {
        assert(all.take(runs@.len() as int) =~= all);
    }
    LocalVisualDetectionResult {
        credits_like_frames,
        sustained_runs: candidates.len(),
        candidates,
    }
}

proof fn lemma_ratio_is_part(j: Json, keys: Seq<Seq<char>>)
    ensures
        reading::first_ratio(j, keys) is Some ==> 0 <= reading::first_ratio(j, keys)->0
            <= 1_000_000,
    decreases keys.len(),
{
    if keys.len() > 0 {
        lemma_ratio_is_part(j, keys.drop_first());
    }
}

proof fn lemma_samples_sound(a: Seq<Json>)
    ensures
        all_sound(samples_in(a)),
    decreases a.len(),
{
    if a.len() > 0 {
        lemma_samples_sound(a.drop_last());
        lemma_ratio_is_part(a.last(), black_names());
        lemma_ratio_is_part(a.last(), text_names());
    }
}

/// The samples of a payload have times that are not negative and ratios that
/// are parts of one, and none lies before one in front of it.
pub proof fn samples_are_sound_and_in_order(j: Json)
    ensures
        all_sound(samples_of(j)),
        order::in_order(samples_of(j), earlier()),
{
    let found = samples_in(payload_list(j, frame_list_names()));
    lemma_samples_sound(payload_list(j, frame_list_names()));
    assert forall|i: int| 0 <= i < samples_of(j).len() implies sound(
        #[trigger] samples_of(j)[i],
    ) by {
        let f = samples_of(j)[i];
        order::lemma_arranged_contains(found, earlier(), f);
        assert(samples_of(j).contains(f));
        let k = choose|k: int| 0 <= k < found.len() && found[k] == f;
        assert(sound(found[k]));
    }
    order::lemma_arranged_in_order(found, earlier());
}

proof fn lemma_late_frames(s: Seq<VisualFrameSample>, duration: i64, t: VisualTuning)
    ensures
        late_of(s, duration, t).len() <= s.len(),
        forall|i: int| 0 <= i < late_of(s, duration, t).len() ==> late(
            #[trigger] late_of(s, duration, t)[i],
            duration,
            t,
        ),
        forall|i: int| 0 <= i < late_of(s, duration, t).len() ==> s.contains(
            #[trigger] late_of(s, duration, t)[i],
        ),
    decreases s.len(),
{
    if s.len() > 0 {
        let rest = s.drop_last();
        lemma_late_frames(rest, duration, t);
        assert forall|i: int| 0 <= i < late_of(s, duration, t).len() implies s.contains(
            #[trigger] late_of(s, duration, t)[i],
        ) by {
            let f = late_of(s, duration, t)[i];
            if i < late_of(rest, duration, t).len() {
                assert(rest.contains(late_of(rest, duration, t)[i]));
                let k = choose|k: int| 0 <= k < rest.len() && rest[k] == f;
                assert(s[k] == f);
            } else {
                assert(s[s.len() - 1] == f);
            }
        }
    }
}

/// Every run is made of frames that look like credits.
proof fn lemma_run_frames(s: Seq<VisualFrameSample>, n: int, t: VisualTuning, run: int, at: int)
    requires
        0 <= n <= s.len(),
        0 <= run < runs_in(s, n, t).len(),
        0 <= at < runs_in(s, n, t)[run].len(),
    ensures
        s.contains(runs_in(s, n, t)[run][at]),
        credits_like(runs_in(s, n, t)[run][at], t),
    decreases n,
{
    if n > 0 {
        let prior = runs_in(s, n - 1, t);
        let now = runs_in(s, n, t);
        if run < prior.len() && at < prior[run].len() {
            lemma_run_frames(s, n - 1, t, run, at);
            if now != prior && now.len() == prior.len() && run == prior.len() - 1 {
                assert(now[run] == prior[run].push(s[n - 1]));
            } else {
                assert(now[run] == prior[run]);
            }
        } else if run < prior.len() {
            assert(run == prior.len() - 1);
            assert(now[run] == prior[run].push(s[n - 1]));
            assert(now[run][at] == s[n - 1]);
        } else {
            assert(now[run] =~= seq![s[n - 1]]);
        }
    }
}

proof fn lemma_segment_run(
    s: Seq<VisualFrameSample>,
    runs: Seq<Seq<VisualFrameSample>>,
    duration: i64,
    t: VisualTuning,
    c: LocalVisualDetectedSegment,
) -> (run: int)
    requires
        segments_of(s, runs, duration, t).contains(c),
    ensures
        0 <= run < runs.len(),
        segment_of(s, runs[run], duration, t) == Some(c),
    decreases runs.len(),
{
    let found = segments_of(s, runs, duration, t);
    let rest = segments_of(s, runs.drop_last(), duration, t);
    let k = choose|k: int| 0 <= k < found.len() && found[k] == c;
    if k < rest.len() {
        assert(rest[k] == c);
        lemma_segment_run(s, runs.drop_last(), duration, t, c)
    } else {
        runs.len() - 1
    }
}

proof fn lemma_scene_first(s: Seq<VisualFrameSample>, t: VisualTuning)
    requires
        s.len() > 0,
        !credits_like(s[0], t),
    ensures
        scene_frames(s, t).len() > 0,
        scene_frames(s, t)[0] == s[0],
    decreases s.len(),
{
    if s.len() > 1 {
        lemma_scene_first(s.drop_last(), t);
    } else {
        assert(scene_frames(s.drop_last(), t) =~= Seq::empty());
    }
}

proof fn lemma_next_credit(s: Seq<VisualFrameSample>, i: int, t: VisualTuning)
    requires
        0 <= i <= s.len(),
    ensures
        i <= next_credit(s, i, t) <= s.len(),
        i < s.len() && !credits_like(s[i], t) ==> i < next_credit(s, i, t),
    decreases s.len() - i,
{
    if i < s.len() && !credits_like(s[i], t) {
        lemma_next_credit(s, i + 1, t);
    }
}

proof fn lemma_first_after(s: Seq<VisualFrameSample>, time: i64, i: int)
    requires
        0 <= i <= s.len(),
    ensures
        i <= first_after(s, time, i) <= s.len(),
        first_after(s, time, i) < s.len() ==> s[first_after(s, time, i)].time > time,
    decreases s.len() - i,
{
    if i < s.len() && s[i].time <= time {
        lemma_first_after(s, time, i + 1);
    }
}

/// A scene after a frame of credits starts after it.
pub proof fn scene_follows_its_credits(s: Seq<VisualFrameSample>, time: i64, t: VisualTuning)
    ensures
        scene_after(s, time, t) is Some ==> scene_after(s, time, t)->0 > time,
{
    lemma_first_after(s, time, 0);
    let from = first_after(s, time, 0);
    if from < s.len() {
        lemma_next_credit(s, from, t);
        let to = next_credit(s, from, t);
        let scene = s.subrange(from, to);
        if credits_like(s[from], t) {
            assert(to == from);
            assert(scene_frames(scene, t) =~= Seq::empty());
        } else {
            assert(scene[0] == s[from]);
            lemma_scene_first(scene, t);
        }
    }
}

/// Every segment that the detector finds starts late in the file, rests on
/// enough frames, lasts as long as credits last at least (but for the rounding
/// of its ends), and ends where the scene after its credits starts, or with the
/// file.
#[verifier::spinoff_prover]
#[verifier::rlimit(40)]
pub proof fn detected_segments_are_credits(
    frames: Seq<VisualFrameSample>,
    duration: i64,
    t: VisualTuning,
    c: LocalVisualDetectedSegment,
)
    requires
        all_sound(frames),
        frames.len() <= usize::MAX,
        detected(frames, duration, t).contains(c),
    ensures
        c.frame_count >= t.min_frame_count,
        (c.start + 500) * 1_000_000 >= duration * t.min_start_fraction,
        c.end - c.start >= candidate::shortest_segment("credits"@) - 1_000,
        consts::LOCAL_VISUAL_CREDITS_MIN_CONFIDENCE <= c.confidence <= 960_000,
        c.start == c.first_frame,
        match c.post_credit_scene_start {
            Some(scene) => c.end == scene && c.last_frame <= scene,
            None => c.end == rounded(duration as int),
        },
{
    let s = late_of(frames, duration, t);
    let runs = runs_in(s, s.len() as int, t);
    let found = segments_of(s, runs, duration, t);
    order::lemma_arranged_contains(found, starts_before(), c);
    let k = lemma_segment_run(s, runs, duration, t, c);
    lemma_runs_nonempty(s, s.len() as int, t);
    let run = runs[k];
    assert(0 < run.len() <= s.len());
    lemma_run_frames(s, s.len() as int, t, k, 0);
    lemma_late_frames(frames, duration, t);
    let f = run[0];
    let q = choose|q: int| 0 <= q < s.len() && s[q] == f;
    assert(late(s[q], duration, t));
    scene_follows_its_credits(s, run.last().time, t);
}

/// The segments come in the order of their start.
pub proof fn detected_segments_are_in_order(
    frames: Seq<VisualFrameSample>,
    duration: i64,
    t: VisualTuning,
)
    ensures
        order::in_order(detected(frames, duration, t), starts_before()),
{
    let s = late_of(frames, duration, t);
    order::lemma_arranged_in_order(
        segments_of(s, runs_in(s, s.len() as int, t), duration, t),
        starts_before(),
    );
}

/// A whole number of seconds, to the nearest.
pub open spec fn nearest_second(micros: int) -> int {
    (micros + 500_000) / 1_000_000
}

/// Why a segment ends where it does.
pub open spec fn end_reason(c: LocalVisualDetectedSegment) -> Seq<char> {
    if c.post_credit_scene_start is Some {
        "post_credit_scene_detected"@
    } else {
        "media_end"@
    }
}

/// A number with a fraction, in a payload.
pub open spec fn fraction_json(micros: i64) -> Json {
    Json::Number(JsonNumber::Fraction(micros))
}

/// What a candidate of the detector says of its evidence.
pub open spec fn evidence_json(c: LocalVisualDetectedSegment) -> Json {
    Json::Object(
        seq![
            ("average_black_ratio"@, fraction_json(c.average_black_ratio)),
            ("average_text_ratio"@, fraction_json(c.average_text_ratio)),
            ("detector"@, Json::Text(consts::PROVIDER_LOCAL_VISUAL_RECURRING@)),
            ("detector_version"@, Json::Text(consts::LOCAL_VISUAL_DETECTOR_VERSION@)),
            ("evidence_span_seconds"@, fraction_json(c.evidence_span)),
            ("first_frame_seconds"@, fraction_json(c.first_frame)),
            ("frame_count"@, Json::Number(JsonNumber::Unsigned(c.frame_count as u64))),
            ("label"@, Json::Text("Local visual credits"@)),
            ("last_frame_seconds"@, fraction_json(c.last_frame)),
            (
                "post_credit_scene_start_seconds"@,
                match c.post_credit_scene_start {
                    Some(x) => fraction_json(x),
                    None => Json::Null,
                },
            ),
            ("segment_end_reason"@, Json::Text(end_reason(c))),
        ],
    )
}

fn evidence_value(c: &LocalVisualDetectedSegment) -> (v: JsonValue)
    ensures
        v@ == evidence_json(*c),
{
    let mut o: Vec<(String, JsonValue)> = Vec::new();
    o.push(
        (
            "average_black_ratio".to_owned(),
            JsonValue::Number(JsonNumber::Fraction(c.average_black_ratio)),
        ),
    );
    o.push(
        (
            "average_text_ratio".to_owned(),
            JsonValue::Number(JsonNumber::Fraction(c.average_text_ratio)),
        ),
    );
    o.push(("detector".to_owned(), text_value(consts::PROVIDER_LOCAL_VISUAL_RECURRING)));
    o.push(("detector_version".to_owned(), text_value(consts::LOCAL_VISUAL_DETECTOR_VERSION)));
    o.push(
        (
            "evidence_span_seconds".to_owned(),
            JsonValue::Number(JsonNumber::Fraction(c.evidence_span)),
        ),
    );
    o.push(
        ("first_frame_seconds".to_owned(), JsonValue::Number(JsonNumber::Fraction(c.first_frame))),
    );
    o.push(
        (
            "frame_count".to_owned(),
            JsonValue::Number(JsonNumber::Unsigned(c.frame_count as u64)),
        ),
    );
    o.push(("label".to_owned(), text_value("Local visual credits")));
    o.push(
        ("last_frame_seconds".to_owned(), JsonValue::Number(JsonNumber::Fraction(c.last_frame))),
    );
    o.push(
        (
            "post_credit_scene_start_seconds".to_owned(),
            match c.post_credit_scene_start {
                Some(x) => JsonValue::Number(JsonNumber::Fraction(x)),
                None => JsonValue::Null,
            },
        ),
    );
    o.push(
        (
            "segment_end_reason".to_owned(),
            if c.post_credit_scene_start.is_some() {
                text_value("post_credit_scene_detected")
            } else {
                text_value("media_end")
            },
        ),
    );
    proof {
        json::lemma_view_object(o);
        assert(json::members_of(o@) =~= evidence_json(*c)->Object_0);
    }
    JsonValue::Object(o)
}

/// The candidate that a detected segment is submitted as.
pub open spec fn credits_submission(
    media_file_id: Seq<char>,
    context: MediaContext,
    c: LocalVisualDetectedSegment,
) -> Submission {
    Submission {
        media_file_id,
        item_type: Some(context.item_type),
        item_id: Some(context.item_id),
        segment_type: "credits"@,
        start: Quantity::Micros(c.start),
        end: Quantity::Micros(c.end),
        provider_kind: consts::PROVIDER_LOCAL_VISUAL_RECURRING@,
        provider_id: consts::LOCAL_VISUAL_DETECTOR_VERSION@,
        provider_version: Some(consts::LOCAL_VISUAL_DETECTOR_VERSION@),
        confidence: Quantity::Micros(c.confidence),
        identity_strength: "file_fingerprint"@,
        source_payload: Some(evidence_json(c)),
    }
}

fn credits_input(
    media_file_id: &str,
    context: &ProviderMediaContext,
    c: &LocalVisualDetectedSegment,
) -> (r: SegmentCandidateInput)
    ensures
        r@ == credits_submission(media_file_id@, context@, *c),
{
    SegmentCandidateInput {
        media_file_id: media_file_id.to_owned(),
        item_type: Some(context.item_type.clone()),
        item_id: Some(context.item_id.clone()),
        segment_type: "credits".to_owned(),
        start: Quantity::Micros(c.start),
        end: Quantity::Micros(c.end),
        provider_kind: consts::PROVIDER_LOCAL_VISUAL_RECURRING.to_owned(),
        provider_id: consts::LOCAL_VISUAL_DETECTOR_VERSION.to_owned(),
        provider_version: Some(consts::LOCAL_VISUAL_DETECTOR_VERSION.to_owned()),
        confidence: Quantity::Micros(c.confidence),
        identity_strength: "file_fingerprint".to_owned(),
        source_payload: Some(evidence_value(c)),
    }
}

/// Why the detector leaves a file alone: it is switched off, the length of the
/// file is not known or too short, or nothing is known of its frames.
pub open spec fn visual_skip(
    provider_settings: Option<Json>,
    context: Option<MediaContext>,
    payload: Option<Json>,
) -> Option<Seq<char>> {
    let duration = match context {
        Some(c) => c.duration,
        None => None,
    };
    if !settings::enabled_setting(provider_settings, false) {
        Some("local_visual_detector_disabled"@)
    } else if duration is None || duration->0 <= 0 {
        Some("unknown_duration"@)
    } else if duration->0 < consts::LOCAL_VISUAL_CREDITS_MIN_DURATION_MICROS {
        Some("duration_too_short"@)
    } else if payload is None {
        Some("missing_video_frame_hash"@)
    } else if samples_of(payload->0).len() == 0 {
        Some("no_video_frame_samples"@)
    } else {
        None
    }
}

/// What the detector reports before its candidates are submitted.
pub open spec fn visual_report(
    r: LocalVisualDetectorSummary,
    media_file_id: Seq<char>,
    provider_settings: Option<Json>,
    context: Option<MediaContext>,
    payload: Option<Json>,
) -> bool {
    let skip = visual_skip(provider_settings, context, payload);
    let duration = match context {
        Some(c) => c.duration,
        None => None,
    };
    let known = settings::enabled_setting(provider_settings, false) && duration is Some
        && duration->0 > 0;
    let t = tuning_of(provider_settings);
    let frames = if payload is Some {
        samples_of(payload->0)
    } else {
        Seq::empty()
    };
    let found = if skip is None {
        detected(frames, duration->0, t)
    } else {
        Seq::empty()
    };
    &&& r.media_file_id@ == media_file_id
    &&& r.detector_version@ == consts::LOCAL_VISUAL_DETECTOR_VERSION@
    &&& r.status@ == if skip is Some {
        "skipped"@
    } else {
        "ok"@
    }
    &&& opt_text(r.reason) == if skip is Some {
        skip
    } else if found.len() == 0 {
        Some("no_sustained_credits_run"@)
    } else {
        None
    }
    &&& r.duration_seconds == if known {
        Some(nearest_second(duration->0 as int) as i64)
    } else {
        None
    }
    &&& r.frames_seen == if skip is None {
        frames.len()
    } else {
        0
    }
    &&& r.credits_like_frames == if skip is None {
        credits_count(late_of(frames, duration->0, t), t)
    } else {
        0
    }
    &&& r.sustained_runs == found.len()
    &&& r.candidates_submitted == 0
    &&& r.candidates_accepted == 0
    &&& r.candidates_rejected == 0
    &&& r.active_segments == 0
}

/// The candidates that the detector submits.
pub open spec fn visual_submissions(
    media_file_id: Seq<char>,
    provider_settings: Option<Json>,
    context: Option<MediaContext>,
    payload: Option<Json>,
) -> Seq<Submission> {
    if visual_skip(provider_settings, context, payload) is Some {
        Seq::empty()
    } else {
        detected(
            samples_of(payload->0),
            context->0.duration->0,
            tuning_of(provider_settings),
        ).map_values(|c: LocalVisualDetectedSegment| credits_submission(
            media_file_id,
            context->0,
            c,
        ))
    }
}

fn new_visual_summary(media_file_id: &str, status: &str, reason: Option<String>) -> (r:
    LocalVisualDetectorSummary)
    ensures
        r.media_file_id@ == media_file_id@,
        r.status@ == status@,
        r.reason == reason,
        r.detector_version@ == consts::LOCAL_VISUAL_DETECTOR_VERSION@,
        r.duration_seconds is None,
        r.frames_seen == 0,
        r.credits_like_frames == 0,
        r.sustained_runs == 0,
        r.candidates_submitted == 0,
        r.candidates_accepted == 0,
        r.candidates_rejected == 0,
        r.active_segments == 0,
{
    LocalVisualDetectorSummary {
        media_file_id: media_file_id.to_owned(),
        status: status.to_owned(),
        duration_seconds: None,
        frames_seen: 0,
        credits_like_frames: 0,
        sustained_runs: 0,
        candidates_submitted: 0,
        candidates_accepted: 0,
        candidates_rejected: 0,
        active_segments: 0,
        detector_version: consts::LOCAL_VISUAL_DETECTOR_VERSION.to_owned(),
        reason,
    }
}

/// What the visual detector makes of a file: its report, and the candidates that
/// are then submitted one by one. Nothing is known of the file, or of its
/// frames, where that was not asked for or not found.
pub fn run_local_visual_credits_detector_for_media_file(
    media_file_id: &str,
    provider_settings: Option<&JsonValue>,
    context: Option<&ProviderMediaContext>,
    payload: Option<&JsonValue>,
) -> (r: (LocalVisualDetectorSummary, Vec<SegmentCandidateInput>))
    ensures
        visual_report(
            r.0,
            media_file_id@,
            json::opt_json(provider_settings),
            opt_context(context),
            json::opt_json(payload),
        ),
        candidate::submissions(r.1@) == visual_submissions(
            media_file_id@,
            json::opt_json(provider_settings),
            opt_context(context),
            json::opt_json(payload),
        ),
{
    let mut inputs: Vec<SegmentCandidateInput> = Vec::new();
    proof {
        assert(candidate::submissions(inputs@) =~= Seq::empty());
    }
    if !provider_settings_enabled(provider_settings) {
        let reason = Some("local_visual_detector_disabled".to_owned());
        return (new_visual_summary(media_file_id, "skipped", reason), inputs);
    }
    let context: &ProviderMediaContext = match context {
        Some(c) => c,
        None => {
            let reason = Some("unknown_duration".to_owned());
            return (new_visual_summary(media_file_id, "skipped", reason), inputs);
        },
    };
    let duration: i64 = match context.duration {
        Some(d) => d,
        None => 0,
    };
    if duration <= 0 {
        let reason = Some("unknown_duration".to_owned());
        return (new_visual_summary(media_file_id, "skipped", reason), inputs);
    }
    let seconds: i64 = ((duration as i128 + 500_000i128) / 1_000_000i128) as i64;
    if duration < consts::LOCAL_VISUAL_CREDITS_MIN_DURATION_MICROS {
        let reason = Some("duration_too_short".to_owned());
        let mut summary = new_visual_summary(media_file_id, "skipped", reason);
        summary.duration_seconds = Some(seconds);
        return (summary, inputs);
    }
    let payload: &JsonValue = match payload {
        Some(p) => p,
        None => {
            let reason = Some("missing_video_frame_hash".to_owned());
            let mut summary = new_visual_summary(media_file_id, "skipped", reason);
            summary.duration_seconds = Some(seconds);
            return (summary, inputs);
        },
    };
    let frames = visual_frame_samples_from_value(payload);
    if frames.len() == 0 {
        let reason = Some("no_video_frame_samples".to_owned());
        let mut summary = new_visual_summary(media_file_id, "skipped", reason);
        summary.duration_seconds = Some(seconds);
        return (summary, inputs);
    }
    let found = detect_visual_credits_segment(&frames, duration, provider_settings);
    let reason = if found.candidates.len() == 0 {
        Some("no_sustained_credits_run".to_owned())
    } else {
        None
    };
    let mut summary = new_visual_summary(media_file_id, "ok", reason);
    summary.duration_seconds = Some(seconds);
    summary.frames_seen = frames.len();
    summary.credits_like_frames = found.credits_like_frames;
    summary.sustained_runs = found.sustained_runs;
    let mut i: usize = 0;
    while i < found.candidates.len()
        invariant
            i <= found.candidates@.len(),
            candidate::submissions(inputs@) == found.candidates@.take(i as int).map_values(
                |c: LocalVisualDetectedSegment| credits_submission(media_file_id@, context@, c),
            ),
        decreases found.candidates@.len() - i,
    {
        let ghost before = candidate::submissions(inputs@);
        let input = credits_input(media_file_id, context, &found.candidates[i]);
        inputs.push(input);
        proof {
            assert(candidate::submissions(inputs@) =~= before.push(input@));
            assert(found.candidates@.take(i + 1).map_values(
                |c: LocalVisualDetectedSegment| credits_submission(media_file_id@, context@, c),
            ) =~= found.candidates@.take(i as int).map_values(
                |c: LocalVisualDetectedSegment| credits_submission(media_file_id@, context@, c),
            ).push(input@));
        }
        i += 1;
    }
    proof {
        assert(found.candidates@.take(found.candidates@.len() as int) =~= found.candidates@);
    }
    (summary, inputs)
}

/// What is known of a file, where it was found.
pub open spec fn opt_context(c: Option<&ProviderMediaContext>) -> Option<MediaContext> {
    match c {
        Some(c) => Some(c@),
        None => None,
    }
}

/// Counts a submitted candidate by the state of its validation; the reason of a
/// rejection is kept.
pub fn count_visual_candidate(
    summary: &mut LocalVisualDetectorSummary,
    validation_state: &str,
    validation_reason: Option<String>,
)
    requires
        old(summary).candidates_submitted < usize::MAX,
        old(summary).candidates_accepted < usize::MAX,
        old(summary).candidates_rejected < usize::MAX,
    ensures
        *final(summary) == (LocalVisualDetectorSummary {
            candidates_submitted: (old(summary).candidates_submitted + 1) as usize,
            candidates_accepted: (old(summary).candidates_accepted + if validation_state@
                == "accepted"@ {
                1int
            } else {
                0
            }) as usize,
            candidates_rejected: (old(summary).candidates_rejected + if validation_state@
                == "accepted"@ {
                0int
            } else {
                1
            }) as usize,
            reason: if validation_state@ == "accepted"@ {
                old(summary).reason
            } else {
                validation_reason
            },
            ..*old(summary)
        }),
{
    summary.candidates_submitted = summary.candidates_submitted + 1;
    if text::str_eq(validation_state, "accepted") {
        summary.candidates_accepted = summary.candidates_accepted + 1;
    } else {
        summary.candidates_rejected = summary.candidates_rejected + 1;
        summary.reason = validation_reason;
    }
}

/// A detector that is switched off submits nothing, whatever is known.
pub proof fn switched_off_detector_submits_nothing(
    media_file_id: Seq<char>,
    provider_settings: Option<Json>,
    context: Option<MediaContext>,
    payload: Option<Json>,
)
    requires
        !settings::enabled_setting(provider_settings, false),
    ensures
        visual_submissions(media_file_id, provider_settings, context, payload).len() == 0,
        visual_skip(provider_settings, context, payload) == Some(
            "local_visual_detector_disabled"@,
        ),
{
}

/// The last frame of the last run is the last frame of credits.
proof fn lemma_last_of_runs(s: Seq<VisualFrameSample>, n: int, t: VisualTuning)
    requires
        0 <= n <= s.len(),
    ensures
        runs_in(s, n, t).len() > 0 ==> {
            &&& runs_in(s, n, t).last().len() > 0
            &&& runs_in(s, n, t).last().last() == s[last_credit(s, n, t)]
        },
    decreases n,
{
    if n > 0 {
        lemma_last_of_runs(s, n - 1, t);
    }
}

/// Within a run no two frames that follow each other lie too far apart.
proof fn lemma_run_gap(s: Seq<VisualFrameSample>, n: int, t: VisualTuning, run: int, at: int)
    requires
        0 <= n <= s.len(),
        0 <= run < runs_in(s, n, t).len(),
        0 <= at < runs_in(s, n, t)[run].len() - 1,
    ensures
        runs_in(s, n, t)[run][at + 1].time - runs_in(s, n, t)[run][at].time <= t.max_frame_gap,
    decreases n,
{
    if n > 0 {
        let prior = runs_in(s, n - 1, t);
        let now = runs_in(s, n, t);
        if run < prior.len() && at < prior[run].len() - 1 {
            lemma_run_gap(s, n - 1, t, run, at);
            if now != prior && now.len() == prior.len() && run == prior.len() - 1 {
                assert(now[run] == prior[run].push(s[n - 1]));
            } else {
                assert(now[run] == prior[run]);
            }
        } else if run < prior.len() {
            lemma_last_of_runs(s, n - 1, t);
            assert(run == prior.len() - 1 && now != prior && now.len() == prior.len());
            assert(now[run] == prior[run].push(s[n - 1]));
            assert(now[run][at + 1] == s[n - 1]);
            assert(now[run][at] == prior.last().last());
        } else {
            assert(now[run] =~= seq![s[n - 1]]);
        }
    }
}

proof fn lemma_sums_are_folds(s: Seq<VisualFrameSample>)
    ensures
        black_sum(s) == s.fold_left(0int, |n: int, f: VisualFrameSample| n + f.black_ratio),
        text_sum(s) == s.fold_left(0int, |n: int, f: VisualFrameSample| n + f.text_ratio),
    decreases s.len(),
{
    if s.len() > 0 {
        lemma_sums_are_folds(s.drop_last());
    }
}

/// Every detected segment rests on a run of frames of the file. Each of them is
/// marked as a frame of credits, or is dark enough and shows enough text; each
/// lies late in the file and no more than five seconds beyond its end. No two
/// that follow each other lie too far apart, and there are enough of them over a
/// long enough time. The segment starts with the first of them, and tells their
/// number, their time and the averages of their ratios.
pub proof fn segments_rest_on_frames_of_credits(
    frames: Seq<VisualFrameSample>,
    duration: i64,
    t: VisualTuning,
    c: LocalVisualDetectedSegment,
) -> (run: Seq<VisualFrameSample>)
    requires
        all_sound(frames),
        frames.len() <= usize::MAX,
        detected(frames, duration, t).contains(c),
    ensures
        duration > 0,
        run.len() > 0,
        run.len() >= t.min_frame_count,
        run.last().time - run[0].time >= t.min_span,
        duration - run[0].time >= 15_000_000,
        forall|i: int|
            0 <= i < run.len() ==> {
                let f = #[trigger] run[i];
                &&& frames.contains(f)
                &&& f.credit_like || (f.black_ratio >= t.black_threshold && f.text_ratio
                    >= t.text_threshold)
                &&& f.time * 1_000_000 >= duration * t.min_start_fraction
                &&& f.time <= duration + 5_000_000
            },
        forall|i: int|
            0 <= i < run.len() - 1 ==> (#[trigger] run[i + 1]).time - run[i].time
                <= t.max_frame_gap,
        c.frame_count == run.len(),
        -500 <= c.start - run[0].time <= 500,
        c.first_frame == c.start,
        -500 <= c.last_frame - run.last().time <= 500,
        -500 <= c.evidence_span - (run.last().time - run[0].time) <= 500,
        c.average_black_ratio == run.fold_left(
            0int,
            |n: int, f: VisualFrameSample| n + f.black_ratio,
        ) / run.len() as int,
        c.average_text_ratio == run.fold_left(
            0int,
            |n: int, f: VisualFrameSample| n + f.text_ratio,
        ) / run.len() as int,
{
    let s = late_of(frames, duration, t);
    let runs = runs_in(s, s.len() as int, t);
    let found = segments_of(s, runs, duration, t);
    order::lemma_arranged_contains(found, starts_before(), c);
    let k = lemma_segment_run(s, runs, duration, t, c);
    lemma_runs_nonempty(s, s.len() as int, t);
    let run = runs[k];
    assert(0 < run.len() <= s.len());
    lemma_late_frames(frames, duration, t);
    assert forall|i: int| 0 <= i < s.len() implies sound(#[trigger] s[i]) by {
        assert(frames.contains(s[i]));
    }
    assert(all_sound(s));
    assert(all_sound(run));
    assert forall|i: int| 0 <= i < run.len() implies {
        let f = #[trigger] run[i];
        &&& frames.contains(f)
        &&& f.credit_like || (f.black_ratio >= t.black_threshold && f.text_ratio
            >= t.text_threshold)
        &&& f.time * 1_000_000 >= duration * t.min_start_fraction
        &&& f.time <= duration + 5_000_000
    } by {
        lemma_run_frames(s, s.len() as int, t, k, i);
        let q = choose|q: int| 0 <= q < s.len() && s[q] == run[i];
        assert(late(s[q], duration, t));
        assert(frames.contains(s[q]));
    }
    assert forall|i: int| 0 <= i < run.len() - 1 implies (#[trigger] run[i + 1]).time
        - run[i].time <= t.max_frame_gap by {
        lemma_run_gap(s, s.len() as int, t, k, i);
    }
    lemma_sums_are_folds(run);
    lemma_sums(run);
    lemma_shortest_credits();
    lemma_average(black_sum(run), run.len() as int);
    lemma_average(text_sum(run), run.len() as int);
    run
}

proof fn lemma_shortest_credits()
    ensures
        candidate::shortest_segment("credits"@) == 15_000_000,
{
    reveal_strlit("credits");
    reveal_strlit("intro");
    reveal_strlit("recap");
    reveal_strlit("preview");
    assert("credits"@[0] == 'c' && "preview"@[0] == 'p');
}

proof fn lemma_average(sum: int, n: int)
    requires
        n > 0,
        0 <= sum <= n * 1_000_000,
    ensures
        0 <= sum / n <= 1_000_000,
{
    assert(0 <= sum / n <= 1_000_000) by (nonlinear_arith)
        requires
            n > 0,
            0 <= sum <= n * 1_000_000,
    ;
}

/// Where no late frame is marked, and none is both dark enough and full enough of
/// text, nothing is detected.
pub proof fn frames_without_credits_give_no_segments(
    frames: Seq<VisualFrameSample>,
    duration: i64,
    t: VisualTuning,
)
    requires
        all_sound(frames),
        frames.len() <= usize::MAX,
        forall|i: int|
            0 <= i < frames.len() && (#[trigger] frames[i]).time * 1_000_000 >= duration
                * t.min_start_fraction ==> !frames[i].credit_like && (frames[i].text_ratio
                < t.text_threshold || frames[i].black_ratio < t.black_threshold),
    ensures
        detected(frames, duration, t).len() == 0,
{
    if detected(frames, duration, t).len() > 0 {
        let c = detected(frames, duration, t)[0];
        assert(detected(frames, duration, t).contains(c));
        let run = segments_rest_on_frames_of_credits(frames, duration, t, c);
        let f = run[0];
        assert(frames.contains(f));
        let i = choose|i: int| 0 <= i < frames.len() && frames[i] == f;
        assert(frames[i].time * 1_000_000 >= duration * t.min_start_fraction);
    }
}

proof fn lemma_all_late(s: Seq<VisualFrameSample>, duration: i64, t: VisualTuning)
    requires
        forall|i: int| 0 <= i < s.len() ==> late(#[trigger] s[i], duration, t),
    ensures
        late_of(s, duration, t) =~= s,
    decreases s.len(),
{
    if s.len() > 0 {
        assert(late(s[s.len() - 1], duration, t));
        assert forall|i: int| 0 <= i < s.len() - 1 implies late(
            #[trigger] s.drop_last()[i],
            duration,
            t,
        ) by {
            assert(late(s[i], duration, t));
        }
        lemma_all_late(s.drop_last(), duration, t);
    }
}

/// Frames of credits that follow each other closely form one run.
proof fn lemma_one_run(s: Seq<VisualFrameSample>, m: int, n: int, t: VisualTuning)
    requires
        0 < m <= s.len(),
        0 <= n <= s.len(),
        forall|i: int| 0 <= i < m ==> credits_like(#[trigger] s[i], t),
        forall|i: int| m <= i < s.len() ==> !credits_like(#[trigger] s[i], t),
        forall|i: int|
            0 <= i < m - 1 ==> (#[trigger] s[i + 1]).time - s[i].time <= t.max_frame_gap,
    ensures
        n == 0 ==> runs_in(s, n, t).len() == 0,
        0 < n <= m ==> runs_in(s, n, t) =~= seq![s.take(n)] && last_credit(s, n, t) == n - 1,
        n > m ==> runs_in(s, n, t) =~= seq![s.take(m)],
    decreases n,
{
    if n > 0 {
        lemma_one_run(s, m, n - 1, t);
        assert(s[n - 1] == s[n - 1]);
        if n == 1 {
            assert(s.take(1) =~= seq![s[0]]);
        } else if n <= m {
            let between = s.subrange(n - 1, n - 1);
            assert(scene_frames(between, t) =~= Seq::empty());
            assert(s[(n - 2) + 1].time - s[n - 2].time <= t.max_frame_gap);
            assert(!run_breaks(s, n - 2, n - 1, t));
            assert(s.take(n) =~= s.take(n - 1).push(s[n - 1]));
        }
    }
}

proof fn lemma_only_scene(s: Seq<VisualFrameSample>, t: VisualTuning)
    requires
        forall|i: int| 0 <= i < s.len() ==> !credits_like(#[trigger] s[i], t),
    ensures
        scene_frames(s, t) =~= s,
    decreases s.len(),
{
    if s.len() > 0 {
        assert(!credits_like(s[s.len() - 1], t));
        assert forall|i: int| 0 <= i < s.len() - 1 implies !credits_like(
            #[trigger] s.drop_last()[i],
            t,
        ) by {
            assert(!credits_like(s[i], t));
        }
        lemma_only_scene(s.drop_last(), t);
    }
}

proof fn lemma_first_after_is(s: Seq<VisualFrameSample>, time: i64, i: int, m: int)
    requires
        0 <= i <= m <= s.len(),
        forall|k: int| 0 <= k < m ==> (#[trigger] s[k]).time <= time,
        m < s.len() ==> s[m].time > time,
    ensures
        first_after(s, time, i) == m,
    decreases m - i,
{
    if i < m {
        assert(s[i].time <= time);
        lemma_first_after_is(s, time, i + 1, m);
    }
}

proof fn lemma_no_next_credit(s: Seq<VisualFrameSample>, i: int, t: VisualTuning)
    requires
        0 <= i <= s.len(),
        forall|k: int| i <= k < s.len() ==> !credits_like(#[trigger] s[k], t),
    ensures
        next_credit(s, i, t) == s.len(),
    decreases s.len() - i,
{
    if i < s.len() {
        assert(!credits_like(s[i], t));
        lemma_no_next_credit(s, i + 1, t);
    }
}

/// Closing credits are found: where the first frames late in a file are frames of
/// credits, close to each other, enough of them and over a long enough time, and
/// those after them are none, there is one segment. It starts with the first
/// frame. It ends where the other frames start, if they are enough and last long
/// enough, else with the file.
pub proof fn sustained_credits_are_detected(
    credits: Seq<VisualFrameSample>,
    scene: Seq<VisualFrameSample>,
    duration: i64,
    t: VisualTuning,
)
    requires
        credits.len() > 0,
        all_sound(credits + scene),
        (credits + scene).len() <= usize::MAX,
        duration > 0,
        forall|i: int|
            0 <= i < (credits + scene).len() ==> {
                let f = #[trigger] (credits + scene)[i];
                &&& f.time * 1_000_000 >= duration * t.min_start_fraction
                &&& f.time <= duration + 5_000_000
            },
        forall|i: int|
            0 <= i < credits.len() ==> (#[trigger] credits[i]).credit_like || (
            credits[i].black_ratio >= t.black_threshold && credits[i].text_ratio
                >= t.text_threshold),
        forall|i: int|
            0 <= i < scene.len() ==> !(#[trigger] scene[i]).credit_like && (scene[i].black_ratio
                < t.black_threshold || scene[i].text_ratio < t.text_threshold),
        forall|i: int|
            0 <= i < credits.len() - 1 ==> 0 <= (#[trigger] credits[i + 1]).time - credits[i].time
                <= t.max_frame_gap,
        scene.len() > 0 ==> scene[0].time > credits.last().time,
        credits.len() >= t.min_frame_count,
        credits.last().time - credits[0].time >= t.min_span,
        duration - credits[0].time >= 15_000_000,
        scene.len() > 0 ==> scene[0].time - credits[0].time >= 15_000_000,
    ensures
        detected(credits + scene, duration, t).len() == 1,
        ({
            let c = detected(credits + scene, duration, t)[0];
            let sparing = scene.len() > 0 && scene.len() >= t.scene_min_frames
                && scene.last().time - scene[0].time >= t.scene_min_span;
            &&& -500 <= c.start - credits[0].time <= 500
            &&& sparing ==> -500 <= c.end - scene[0].time <= 500 && c.post_credit_scene_start
                == Some(c.end)
            &&& !sparing ==> -500 <= c.end - duration <= 500 && c.post_credit_scene_start is None
            &&& c.frame_count == credits.len()
        }),
{
    let s = credits + scene;
    let m = credits.len() as int;
    assert forall|i: int| 0 <= i < s.len() implies late(#[trigger] s[i], duration, t) by {
        assert((credits + scene)[i] == s[i]);
    }
    lemma_all_late(s, duration, t);
    assert forall|i: int| 0 <= i < m implies credits_like(#[trigger] s[i], t) by {
        assert(s[i] == credits[i]);
    }
    assert forall|i: int| m <= i < s.len() implies !credits_like(#[trigger] s[i], t) by {
        assert(s[i] == scene[i - m]);
    }
    assert forall|i: int| 0 <= i < m - 1 implies (#[trigger] s[i + 1]).time - s[i].time
        <= t.max_frame_gap by {
        assert(s[i + 1] == credits[i + 1]);
    }
    lemma_one_run(s, m, s.len() as int, t);
    assert(s.take(m) =~= credits);
    let runs = runs_in(s, s.len() as int, t);
    assert(runs =~= seq![credits]);
    lemma_times_rise(credits, 0);
    let last = credits.last().time;
    assert forall|k: int| 0 <= k < m implies (#[trigger] s[k]).time <= last by {
        lemma_times_rise(credits, k);
        assert(s[k] == credits[k]);
    }
    lemma_first_after_is(s, last, 0, m);
    lemma_no_next_credit(s, m, t);
    assert(s.subrange(m, s.len() as int) =~= scene);
    assert forall|i: int| 0 <= i < scene.len() implies !credits_like(#[trigger] scene[i], t) by {
        assert(!scene[i].credit_like);
    }
    lemma_only_scene(scene, t);
    lemma_shortest_credits();
    lemma_sole_run(s, credits, scene, duration, t);
}

/// What the only run of a file becomes.
proof fn lemma_sole_run(
    s: Seq<VisualFrameSample>,
    credits: Seq<VisualFrameSample>,
    scene: Seq<VisualFrameSample>,
    duration: i64,
    t: VisualTuning,
)
    requires
        duration > 0,
        late_of(s, duration, t) == s,
        runs_in(s, s.len() as int, t) == seq![credits],
        s.len() == credits.len() + scene.len(),
        s.len() <= usize::MAX,
        0 < credits.len(),
        first_after(s, credits.last().time, 0) == credits.len(),
        next_credit(s, credits.len() as int, t) == s.len(),
        s.subrange(credits.len() as int, s.len() as int) == scene,
        scene_frames(scene, t) == scene,
        credits.len() >= t.min_frame_count,
        credits.last().time - credits[0].time >= t.min_span,
        duration - credits[0].time >= candidate::shortest_segment("credits"@),
        scene.len() > 0 ==> scene[0].time - credits[0].time >= candidate::shortest_segment(
            "credits"@,
        ),
    ensures
        detected(s, duration, t).len() == 1,
        ({
            let c = detected(s, duration, t)[0];
            let sparing = scene.len() > 0 && scene.len() >= t.scene_min_frames
                && scene.last().time - scene[0].time >= t.scene_min_span;
            &&& -500 <= c.start - credits[0].time <= 500
            &&& sparing ==> -500 <= c.end - scene[0].time <= 500 && c.post_credit_scene_start
                == Some(c.end)
            &&& !sparing ==> -500 <= c.end - duration <= 500 && c.post_credit_scene_start is None
            &&& c.frame_count == credits.len()
        }),
{
    let runs = seq![credits];
    let c = segment_of(s, credits, duration, t);
    assert(c is Some);
    assert(runs.last() == credits);
    assert(runs.drop_last() =~= Seq::empty());
    assert(segments_of(s, runs.drop_last(), duration, t) =~= Seq::empty());
    let found = segments_of(s, runs, duration, t);
    assert(found =~= seq![c->0]);
    lemma_arranged_one(c->0);
}

proof fn lemma_arranged_one(c: LocalVisualDetectedSegment)
    ensures
        order::arranged(seq![c], starts_before()) =~= seq![c],
{
    let one = seq![c];
    assert(one.drop_last() =~= Seq::empty());
    assert(order::arranged(one.drop_last(), starts_before()) =~= Seq::empty());
    order::lemma_place_at(Seq::empty(), c, starts_before(), 0);
    assert(Seq::<LocalVisualDetectedSegment>::empty().insert(0, c) =~= one);
}

proof fn lemma_times_rise(s: Seq<VisualFrameSample>, k: int)
    requires
        0 <= k < s.len(),
        forall|i: int| 0 <= i < s.len() - 1 ==> 0 <= (#[trigger] s[i + 1]).time - s[i].time,
    ensures
        s[k].time <= s.last().time,
    decreases s.len() - k,
{
    if k < s.len() - 1 {
        assert(0 <= s[k + 1].time - s[k].time);
        lemma_times_rise(s, k + 1);
    }
}

/// How sure the detector is of a run, by its frames, its time in microseconds
/// and its averages: 0.82, and 0.015 for each frame beyond three up to 0.06, one
/// part in three hundred of a second's millionths up to 0.05, eight hundredths of
/// the darkness beyond 0.7 and a tenth of the text beyond 0.08, each up to 0.03;
/// in all no more than 0.96.
pub proof fn confidence_grows_with_the_evidence(count: int, span: int, black: int, words: int)
    requires
        count >= 0,
        span >= 0,
        0 <= black <= 1_000_000,
        0 <= words <= 1_000_000,
    ensures
        820_000 <= confidence_of(count, span, black, words) <= 960_000,
        confidence_of(count, span, black, words) <= confidence_of(count + 1, span, black, words),
        count <= 3 && span == 0 && black <= 700_000 && words <= 80_000 ==> confidence_of(
            count,
            span,
            black,
            words,
        ) == 820_000,
        3 <= count <= 7 && span <= 14_999_999 && black <= 700_000 && words <= 80_000
            ==> confidence_of(count, span, black, words) == 820_000 + (count - 3) * 15_000 + span
            / 300,
        count <= 3 && span >= 15_000_000 && 700_000 <= black <= 1_000_000 && words <= 80_000
            ==> confidence_of(count, span, black, words) == 870_000 + (black - 700_000) * 8 / 100,
        count <= 3 && span >= 15_000_000 && black <= 700_000 && 80_000 <= words <= 380_000
            ==> confidence_of(count, span, black, words) == 870_000 + (words - 80_000) / 10,
        count <= 3 && span >= 15_000_000 && black <= 700_000 && words >= 380_000 ==> confidence_of(
            count,
            span,
            black,
            words,
        ) == 900_000,
        count >= 7 && span >= 15_000_000 && black <= 700_000 && words <= 80_000 ==> confidence_of(
            count,
            span,
            black,
            words,
        ) == 930_000,
        count >= 7 && span >= 15_000_000 && words >= 380_000 ==> confidence_of(
            count,
            span,
            black,
            words,
        ) == 960_000,
{
}

/// The confidence of a detected segment is what its number of frames and its
/// averages give, over a time within half a millisecond of the one it tells.
pub proof fn segments_tell_their_confidence(
    frames: Seq<VisualFrameSample>,
    duration: i64,
    t: VisualTuning,
    c: LocalVisualDetectedSegment,
) -> (span: int)
    requires
        all_sound(frames),
        frames.len() <= usize::MAX,
        detected(frames, duration, t).contains(c),
    ensures
        -500 <= c.evidence_span - span <= 500,
        c.confidence == confidence_of(
            c.frame_count as int,
            span,
            c.average_black_ratio as int,
            c.average_text_ratio as int,
        ),
{
    let s = late_of(frames, duration, t);
    let runs = runs_in(s, s.len() as int, t);
    order::lemma_arranged_contains(
        segments_of(s, runs, duration, t),
        starts_before(),
        c,
    );
    let k = lemma_segment_run(s, runs, duration, t, c);
    lemma_runs_nonempty(s, s.len() as int, t);
    let run = runs[k];
    assert(0 < run.len() <= s.len());
    lemma_late_frames(frames, duration, t);
    assert forall|i: int| 0 <= i < s.len() implies sound(#[trigger] s[i]) by {
        assert(frames.contains(s[i]));
    }
    assert(all_sound(s));
    assert(all_sound(run));
    lemma_sums(run);
    lemma_average(black_sum(run), run.len() as int);
    lemma_average(text_sum(run), run.len() as int);
    lemma_run_frames(s, s.len() as int, t, k, 0);
    run.last().time - run[0].time
}

/// Without settings of its own the detector looks at the last two fifths of a
/// file for at least three frames no more than ninety seconds apart, over at
/// least twenty seconds, that are dark on seven tenths of their area and show
/// text on eight hundredths; a scene after the credits has at least two frames
/// over at least twenty seconds.
pub proof fn default_tuning()
    ensures
        tuning_of(None) == (VisualTuning {
            min_start_fraction: 600_000,
            max_frame_gap: 90_000_000,
            min_frame_count: 3,
            min_span: 20_000_000,
            scene_min_frames: 2,
            scene_min_span: 20_000_000,
            black_threshold: 700_000,
            text_threshold: 80_000,
        }),
{
}

/// The detector submits each segment it found as credits of the file, at the
/// start, the end and the confidence of the segment, under its own name.
pub proof fn segments_are_submitted_as_credits(
    media_file_id: Seq<char>,
    provider_settings: Option<Json>,
    context: Option<MediaContext>,
    payload: Option<Json>,
    k: int,
)
    requires
        0 <= k < visual_submissions(media_file_id, provider_settings, context, payload).len(),
    ensures
        json::json_get(provider_settings->0, "enabled"@) == Some(Json::Bool(true)),
        provider_settings is Some,
        context is Some,
        context->0.duration is Some,
        context->0.duration->0 >= 300_000_000,
        payload is Some,
        ({
            let found = detected(
                samples_of(payload->0),
                context->0.duration->0,
                tuning_of(provider_settings),
            );
            let s = visual_submissions(media_file_id, provider_settings, context, payload)[k];
            &&& visual_submissions(media_file_id, provider_settings, context, payload).len()
                == found.len()
            &&& s.media_file_id == media_file_id
            &&& s.item_type == Some(context->0.item_type)
            &&& s.item_id == Some(context->0.item_id)
            &&& s.segment_type == "credits"@
            &&& s.start == Quantity::Micros(found[k].start)
            &&& s.end == Quantity::Micros(found[k].end)
            &&& s.confidence == Quantity::Micros(found[k].confidence)
            &&& s.provider_kind == "local_visual_recurring"@
            &&& s.provider_id == "local-visual-credits-v1"@
            &&& s.provider_version == Some("local-visual-credits-v1"@)
            &&& s.identity_strength == "file_fingerprint"@
            &&& s.source_payload is Some
        }),
{
}

/// A frame of a payload is read under any of the names that its members go by, where
/// those before it are not there: its time in seconds, how dark it is, how much text it
/// shows and whether it is marked as one of credits. A ratio beyond one counts
/// hundredths.
pub proof fn frames_are_read_under_their_names(
    j: Json,
    a: int,
    b: int,
    c: int,
    d: int,
    time: i64,
    black: i64,
    words: i64,
    mark: bool,
)
    requires
        ({
            let times = seq![
                "time_seconds"@,
                "timeSeconds"@,
                "timestamp_seconds"@,
                "timestampSeconds"@,
                "timestamp"@,
                "pts_seconds"@,
                "ptsSeconds"@,
                "start_seconds"@,
                "startSeconds"@,
                "start"@,
                "time"@,
            ];
            let darks = seq![
                "black_ratio"@,
                "blackRatio"@,
                "dark_ratio"@,
                "darkRatio"@,
                "luma_black_ratio"@,
                "lumaBlackRatio"@,
                "black"@,
                "dark"@,
            ];
            let texts = seq![
                "text_ratio"@,
                "textRatio"@,
                "text_density"@,
                "textDensity"@,
                "edge_ratio"@,
                "edgeRatio"@,
                "ocr_text_ratio"@,
                "ocrTextRatio"@,
                "text"@,
            ];
            let marks = seq![
                "credit_like"@,
                "creditLike"@,
                "credits_like"@,
                "creditsLike"@,
                "is_credit"@,
                "isCredit"@,
                "is_credits"@,
                "isCredits"@,
            ];
            &&& 0 <= a < times.len() && 0 <= b < darks.len() && 0 <= c < texts.len() && 0 <= d
                < marks.len()
            &&& json::json_get(j, times[a]) == Some(Json::Number(JsonNumber::Fraction(time)))
            &&& json::json_get(j, darks[b]) == Some(Json::Number(JsonNumber::Fraction(black)))
            &&& json::json_get(j, texts[c]) == Some(Json::Number(JsonNumber::Fraction(words)))
            &&& json::json_get(j, marks[d]) == Some(Json::Bool(mark))
            &&& forall|i: int| 0 <= i < a ==> json::json_get(j, #[trigger] times[i]) is None
            &&& forall|i: int| 0 <= i < b ==> json::json_get(j, #[trigger] darks[i]) is None
            &&& forall|i: int| 0 <= i < c ==> json::json_get(j, #[trigger] texts[i]) is None
            &&& forall|i: int| 0 <= i < d ==> json::json_get(j, #[trigger] marks[i]) is None
        }),
        time >= 0,
        0 <= black <= 100_000_000,
        0 <= words <= 100_000_000,
    ensures
        sample_of(j) == Some(
            VisualFrameSample {
                time,
                black_ratio: if black <= 1_000_000 {
                    black
                } else {
                    (black / 100) as i64
                },
                text_ratio: if words <= 1_000_000 {
                    words
                } else {
                    (words / 100) as i64
                },
                credit_like: mark,
            },
        ),
{
    reading::first_readable_time_counts(j, frame_time_names(), a, time);
    reading::first_readable_ratio_counts(j, black_names(), b, black);
    reading::first_readable_ratio_counts(j, text_names(), c, words);
    reading::first_truth_value_counts(j, credit_names(), d, mark);
}

/// A frame without a time, or before the start of the file, is none; a ratio or a mark
/// that is not there is nothing.
pub proof fn frames_need_a_time(j: Json)
    ensures
        reading::first_time(j, frame_time_names()) is None ==> sample_of(j) is None,
        sample_of(j) is Some ==> sample_of(j)->0.time >= 0 && Some(sample_of(j)->0.time)
            == reading::first_time(j, frame_time_names()),
        sample_of(j) is Some && reading::first_ratio(j, black_names()) is None ==> sample_of(
            j,
        )->0.black_ratio == 0,
        sample_of(j) is Some && reading::first_ratio(j, text_names()) is None ==> sample_of(
            j,
        )->0.text_ratio == 0,
        sample_of(j) is Some && reading::first_bool(j, credit_names()) is None ==> !sample_of(
            j,
        )->0.credit_like,
{
}

/// The frames of a payload stand in the first of its lists by these names that is there,
/// or the payload is itself the list.
pub proof fn payloads_list_their_frames(j: Json, k: int, list: Seq<Json>)
    ensures
        ({
            let names = seq![
                "frames"@,
                "frame_hashes"@,
                "frameHashes"@,
                "video_frames"@,
                "videoFrames"@,
                "samples"@,
            ];
            0 <= k < names.len() && json::json_get(j, names[k]) == Some(Json::Array(list)) && (
            forall|i: int| 0 <= i < k ==> json::json_get(j, #[trigger] names[i]) is None)
                ==> payload_list(j, frame_list_names()) == list
        }),
        j == Json::Array(list) ==> payload_list(j, frame_list_names()) == list,
{
    let names = frame_list_names();
    if 0 <= k < names.len() && json::json_get(j, names[k]) == Some(Json::Array(list)) && (forall|
        i: int,
    |
        0 <= i < k ==> json::json_get(j, #[trigger] names[i]) is None) {
        reading::first_member_there_counts(j, names, k);
    }
    if j == Json::Array(list) {
        lemma_lists_have_no_members(j, names);
    }
}

proof fn lemma_lists_have_no_members(j: Json, keys: Seq<Seq<char>>)
    requires
        j is Array,
    ensures
        reading::first_member(j, keys) is None,
    decreases keys.len(),
{
    if keys.len() > 0 {
        lemma_lists_have_no_members(j, keys.drop_first());
    }
}

/// The frames of a payload come by their time, and detected segments by their start.
pub proof fn frames_and_segments_come_in_order(
    j: Json,
    frames: Seq<VisualFrameSample>,
    duration: i64,
    t: VisualTuning,
)
    ensures
        forall|a: int, b: int|
            0 <= a < b < samples_of(j).len() ==> (#[trigger] samples_of(j)[a]).time <= (
            #[trigger] samples_of(j)[b]).time,
        forall|a: int, b: int|
            0 <= a < b < detected(frames, duration, t).len() ==> (#[trigger] detected(
                frames,
                duration,
                t,
            )[a]).start <= (#[trigger] detected(frames, duration, t)[b]).start,
{
    let raw = samples_in(payload_list(j, frame_list_names()));
    order::lemma_arranged_in_order(raw, earlier());
    detected_segments_are_in_order(frames, duration, t);
    let s = samples_of(j);
    let d = detected(frames, duration, t);
    assert forall|a: int, b: int| 0 <= a < b < s.len() implies (#[trigger] s[a]).time <= (
    #[trigger] s[b]).time by {
        assert(!earlier()(s[b], s[a]));
    }
    assert forall|a: int, b: int| 0 <= a < b < d.len() implies (#[trigger] d[a]).start <= (
    #[trigger] d[b]).start by {
        assert(!starts_before()(d[b], d[a]));
    }
}

/// Why the detector leaves a file alone, by the first that holds: it is off, the length is
/// not known or below five minutes, or nothing is known of the frames.
pub proof fn files_that_are_left_alone(
    provider_settings: Option<Json>,
    context: Option<MediaContext>,
    payload: Option<Json>,
)
    ensures
        ({
            let on = provider_settings is Some && json::json_get(
                provider_settings->0,
                "enabled"@,
            ) == Some(Json::Bool(true));
            let known = context is Some && context->0.duration is Some && context->0.duration->0
                > 0;
            let long = known && context->0.duration->0 >= 300_000_000;
            let skip = visual_skip(provider_settings, context, payload);
            &&& !on ==> skip == Some("local_visual_detector_disabled"@)
            &&& on && !known ==> skip == Some("unknown_duration"@)
            &&& on && known && !long ==> skip == Some("duration_too_short"@)
            &&& on && long && payload is None ==> skip == Some("missing_video_frame_hash"@)
            &&& on && long && payload is Some && samples_of(payload->0).len() == 0 ==> skip == Some(
                "no_video_frame_samples"@,
            )
            &&& on && long && payload is Some && samples_of(payload->0).len() > 0 ==> skip is None
        }),
{
}

/// What a candidate of the detector says of its evidence: the frames it rests on, from the
/// first to the last, their averages, and whether a scene after the credits ended it.
pub proof fn evidence_is_told(c: LocalVisualDetectedSegment)
    ensures
        ({
            let e = evidence_json(c);
            let seconds = |n: i64| Json::Number(JsonNumber::Fraction(n));
            &&& json::json_get(e, "average_black_ratio"@) == Some(seconds(c.average_black_ratio))
            &&& json::json_get(e, "average_text_ratio"@) == Some(seconds(c.average_text_ratio))
            &&& json::json_get(e, "evidence_span_seconds"@) == Some(seconds(c.evidence_span))
            &&& json::json_get(e, "first_frame_seconds"@) == Some(seconds(c.first_frame))
            &&& json::json_get(e, "last_frame_seconds"@) == Some(seconds(c.last_frame))
            &&& json::json_get(e, "frame_count"@) == Some(
                Json::Number(JsonNumber::Unsigned(c.frame_count as u64)),
            )
            &&& json::json_get(e, "label"@) == Some(Json::Text("Local visual credits"@))
            &&& json::json_get(e, "segment_end_reason"@) == Some(
                Json::Text(
                    if c.post_credit_scene_start is Some {
                        "post_credit_scene_detected"@
                    } else {
                        "media_end"@
                    },
                ),
            )
            &&& json::json_get(e, "post_credit_scene_start_seconds"@) == Some(
                match c.post_credit_scene_start {
                    Some(x) => seconds(x),
                    None => Json::Null,
                },
            )
        }),
{
    lemma_evidence_names_differ();
    let m = evidence_json(c)->Object_0;
    json::lemma_lookup_at(m, "average_black_ratio"@, 0);
    json::lemma_lookup_at(m, "average_text_ratio"@, 1);
    json::lemma_lookup_at(m, "evidence_span_seconds"@, 4);
    json::lemma_lookup_at(m, "first_frame_seconds"@, 5);
    json::lemma_lookup_at(m, "frame_count"@, 6);
    json::lemma_lookup_at(m, "label"@, 7);
    json::lemma_lookup_at(m, "last_frame_seconds"@, 8);
    json::lemma_lookup_at(m, "post_credit_scene_start_seconds"@, 9);
    json::lemma_lookup_at(m, "segment_end_reason"@, 10);
}

proof fn lemma_evidence_names_differ()
    ensures
        "average_black_ratio"@ != "average_text_ratio"@,
        "average_black_ratio"@ != "detector"@,
        "average_black_ratio"@ != "detector_version"@,
        "average_black_ratio"@ != "evidence_span_seconds"@,
        "average_black_ratio"@ != "first_frame_seconds"@,
        "average_black_ratio"@ != "frame_count"@,
        "average_black_ratio"@ != "label"@,
        "average_black_ratio"@ != "last_frame_seconds"@,
        "average_black_ratio"@ != "post_credit_scene_start_seconds"@,
        "average_black_ratio"@ != "segment_end_reason"@,
        "average_text_ratio"@ != "detector"@,
        "average_text_ratio"@ != "detector_version"@,
        "average_text_ratio"@ != "evidence_span_seconds"@,
        "average_text_ratio"@ != "first_frame_seconds"@,
        "average_text_ratio"@ != "frame_count"@,
        "average_text_ratio"@ != "label"@,
        "average_text_ratio"@ != "last_frame_seconds"@,
        "average_text_ratio"@ != "post_credit_scene_start_seconds"@,
        "average_text_ratio"@ != "segment_end_reason"@,
        "detector"@ != "detector_version"@,
        "detector"@ != "evidence_span_seconds"@,
        "detector"@ != "first_frame_seconds"@,
        "detector"@ != "frame_count"@,
        "detector"@ != "label"@,
        "detector"@ != "last_frame_seconds"@,
        "detector"@ != "post_credit_scene_start_seconds"@,
        "detector"@ != "segment_end_reason"@,
        "detector_version"@ != "evidence_span_seconds"@,
        "detector_version"@ != "first_frame_seconds"@,
        "detector_version"@ != "frame_count"@,
        "detector_version"@ != "label"@,
        "detector_version"@ != "last_frame_seconds"@,
        "detector_version"@ != "post_credit_scene_start_seconds"@,
        "detector_version"@ != "segment_end_reason"@,
        "evidence_span_seconds"@ != "first_frame_seconds"@,
        "evidence_span_seconds"@ != "frame_count"@,
        "evidence_span_seconds"@ != "label"@,
        "evidence_span_seconds"@ != "last_frame_seconds"@,
        "evidence_span_seconds"@ != "post_credit_scene_start_seconds"@,
        "evidence_span_seconds"@ != "segment_end_reason"@,
        "first_frame_seconds"@ != "frame_count"@,
        "first_frame_seconds"@ != "label"@,
        "first_frame_seconds"@ != "last_frame_seconds"@,
        "first_frame_seconds"@ != "post_credit_scene_start_seconds"@,
        "first_frame_seconds"@ != "segment_end_reason"@,
        "frame_count"@ != "label"@,
        "frame_count"@ != "last_frame_seconds"@,
        "frame_count"@ != "post_credit_scene_start_seconds"@,
        "frame_count"@ != "segment_end_reason"@,
        "label"@ != "last_frame_seconds"@,
        "label"@ != "post_credit_scene_start_seconds"@,
        "label"@ != "segment_end_reason"@,
        "last_frame_seconds"@ != "post_credit_scene_start_seconds"@,
        "last_frame_seconds"@ != "segment_end_reason"@,
        "post_credit_scene_start_seconds"@ != "segment_end_reason"@,
{
    reveal_strlit("average_black_ratio");
    reveal_strlit("average_text_ratio");
    reveal_strlit("detector");
    reveal_strlit("detector_version");
    reveal_strlit("evidence_span_seconds");
    reveal_strlit("first_frame_seconds");
    reveal_strlit("frame_count");
    reveal_strlit("label");
    reveal_strlit("last_frame_seconds");
    reveal_strlit("post_credit_scene_start_seconds");
    reveal_strlit("segment_end_reason");
    assert("average_black_ratio"@.len() == 19);
    assert("average_text_ratio"@.len() == 18);
    assert("detector"@.len() == 8);
    assert("detector_version"@.len() == 16);
    assert("evidence_span_seconds"@.len() == 21);
    assert("first_frame_seconds"@.len() == 19);
    assert("frame_count"@.len() == 11);
    assert("label"@.len() == 5);
    assert("last_frame_seconds"@.len() == 18);
    assert("post_credit_scene_start_seconds"@.len() == 31);
    assert("segment_end_reason"@.len() == 18);
    assert("average_black_ratio"@[0] == 'a');
    assert("average_text_ratio"@[0] == 'a');
    assert("first_frame_seconds"@[0] == 'f');
    assert("last_frame_seconds"@[0] == 'l');
    assert("segment_end_reason"@[0] == 's');
}

/// What the detector reports of a file: whether and why it was skipped, its whole seconds,
/// its frames, and the segments it found; where it found none it says so.
pub proof fn detections_are_reported(
    r: LocalVisualDetectorSummary,
    media_file_id: Seq<char>,
    provider_settings: Option<Json>,
    context: Option<MediaContext>,
    payload: Option<Json>,
)
    requires
        visual_report(r, media_file_id, provider_settings, context, payload),
    ensures
        ({
            let skip = visual_skip(provider_settings, context, payload);
            let found = visual_submissions(media_file_id, provider_settings, context, payload);
            &&& r.media_file_id@ == media_file_id
            &&& r.detector_version@ == "local-visual-credits-v1"@
            &&& skip is Some ==> r.status@ == "skipped"@ && r.reason is Some && r.reason->0@
                == skip->0 && r.frames_seen == 0 && r.sustained_runs == 0
            &&& skip is None ==> r.status@ == "ok"@ && r.frames_seen == samples_of(payload->0).len()
                && r.sustained_runs == found.len() && -500_000 <= r.duration_seconds->0 * 1_000_000
                - context->0.duration->0 <= 500_000
            &&& skip is None && found.len() == 0 ==> r.reason is Some && r.reason->0@
                == "no_sustained_credits_run"@
            &&& skip is None && found.len() > 0 ==> r.reason is None
            &&& r.candidates_submitted == 0 && r.candidates_accepted == 0 && r.candidates_rejected
                == 0
        }),
{
}

/// How many late frames look like credits: those that are marked, or dark enough with
/// enough text.
pub proof fn frames_of_credits_are_counted(s: Seq<VisualFrameSample>, t: VisualTuning)
    ensures
        credits_count(s, t) == s.filter(
            |f: VisualFrameSample|
                f.credit_like || (f.black_ratio >= t.black_threshold && f.text_ratio
                    >= t.text_threshold),
        ).len(),
    decreases s.len(),
{
    reveal(Seq::filter);
    if s.len() > 0 {
        frames_of_credits_are_counted(s.drop_last(), t);
    }
}

/// Whether each of some frames is one of credits, close to the one before it.
spec fn close_credits(s: Seq<VisualFrameSample>, t: VisualTuning) -> bool {
    &&& s.len() > 0
    &&& forall|i: int| 0 <= i < s.len() ==> credits_like(#[trigger] s[i], t)
    &&& forall|i: int|
        0 <= i < s.len() - 1 ==> 0 <= (#[trigger] s[i + 1]).time - s[i].time <= t.max_frame_gap
}

/// The runs of credits, other frames and credits again: one where the other frames are no
/// scene and the gap is small, else two.
proof fn lemma_runs_of_three(
    a: Seq<VisualFrameSample>,
    b: Seq<VisualFrameSample>,
    c: Seq<VisualFrameSample>,
    t: VisualTuning,
    n: int,
)
    requires
        close_credits(a, t),
        close_credits(c, t),
        forall|i: int| 0 <= i < b.len() ==> !credits_like(#[trigger] b[i], t),
        0 <= n <= (a + b + c).len(),
    ensures
        ({
            let s = a + b + c;
            let split = c[0].time - a.last().time > t.max_frame_gap || (b.len() > 0 && b.len()
                >= t.scene_min_frames && b.last().time - b[0].time >= t.scene_min_span);
            let m = a.len() + b.len();
            &&& n == 0 ==> runs_in(s, n, t).len() == 0
            &&& 0 < n <= a.len() ==> runs_in(s, n, t) == seq![a.take(n)] && last_credit(s, n, t) == n
                - 1
            &&& a.len() <= n <= m ==> runs_in(s, n, t) == seq![a] && last_credit(s, n, t) == a.len()
                - 1
            &&& n > m && split ==> runs_in(s, n, t) == seq![a, c.take(n - m)] && last_credit(s, n, t)
                == n - 1
            &&& n > m && !split ==> runs_in(s, n, t) == seq![a + c.take(n - m)] && last_credit(
                s,
                n,
                t,
            ) == n - 1
        }),
    decreases n,
{
    let s = a + b + c;
    let m = (a.len() + b.len()) as int;
    if n > 0 {
        lemma_runs_of_three(a, b, c, t, n - 1);
        let prior = runs_in(s, n - 1, t);
        let now = runs_in(s, n, t);
        if n <= a.len() {
            assert(s[n - 1] == a[n - 1]);
            assert(credits_like(a[n - 1], t));
            if n == 1 {
                assert(a.take(1) =~= seq![a[0]]);
                assert(now =~= seq![a.take(1)]);
            } else {
                assert(s[n - 2] == a[n - 2]);
                let between = s.subrange(n - 1, n - 1);
                assert(scene_frames(between, t) =~= Seq::empty());
                assert(a[(n - 2) + 1].time - a[n - 2].time <= t.max_frame_gap);
                assert(!run_breaks(s, n - 2, n - 1, t));
                assert(a.take(n) =~= a.take(n - 1).push(a[n - 1]));
                assert(now =~= seq![a.take(n)]);
            }
            if n == a.len() {
                assert(a.take(n) =~= a);
            }
        } else if n <= m {
            assert(s[n - 1] == b[n - 1 - a.len()]);
            assert(!credits_like(b[n - 1 - a.len()], t));
        } else {
            let k = n - 1 - m;
            assert(s[n - 1] == c[k]);
            assert(credits_like(c[k], t));
            if k == 0 {
                let last = a.len() - 1;
                assert(s[last] == a.last());
                assert(s.subrange(last + 1, n - 1) =~= b);
                lemma_only_scene(b, t);
                assert(c.take(1) =~= seq![c[0]]);
                if prior.len() == 0 || run_breaks(s, last, n - 1, t) {
                    assert(now =~= seq![a, c.take(1)]);
                } else {
                    assert(a.push(c[0]) =~= a + c.take(1));
                    assert(now =~= seq![a + c.take(1)]);
                }
            } else {
                assert(s[n - 2] == c[k - 1]);
                let between = s.subrange(n - 1, n - 1);
                assert(scene_frames(between, t) =~= Seq::empty());
                assert(c[(k - 1) + 1].time - c[k - 1].time <= t.max_frame_gap);
                assert(!run_breaks(s, n - 2, n - 1, t));
                assert(c.take(k + 1) =~= c.take(k).push(c[k]));
                assert((a + c.take(k)).push(c[k]) =~= a + c.take(k + 1));
                assert(prior.drop_last().push(prior.last().push(c[k])) =~= now);
                if prior.len() == 2 {
                    assert(now =~= seq![a, c.take(k + 1)]);
                } else {
                    assert(now =~= seq![a + c.take(k + 1)]);
                }
            }
        }
    }
}

/// A scene between two runs of credits is spared: the first segment ends where the scene
/// starts, and the second starts with the credits behind it and ends with the file.
pub proof fn scenes_between_credits_are_spared(
    a: Seq<VisualFrameSample>,
    b: Seq<VisualFrameSample>,
    c: Seq<VisualFrameSample>,
    duration: i64,
    t: VisualTuning,
)
    requires
        duration > 0,
        a.len() > 0,
        b.len() > 0,
        c.len() > 0,
        (a + b + c).len() <= usize::MAX,
        forall|i: int|
            0 <= i < (a + b + c).len() ==> {
                let f = #[trigger] (a + b + c)[i];
                &&& 0 <= f.time
                &&& f.time * 1_000_000 >= duration * t.min_start_fraction
                &&& f.time <= duration + 5_000_000
            },
        forall|i: int|
            0 <= i < a.len() ==> (#[trigger] a[i]).credit_like || (a[i].black_ratio
                >= t.black_threshold && a[i].text_ratio >= t.text_threshold),
        forall|i: int|
            0 <= i < c.len() ==> (#[trigger] c[i]).credit_like || (c[i].black_ratio
                >= t.black_threshold && c[i].text_ratio >= t.text_threshold),
        forall|i: int|
            0 <= i < b.len() ==> !(#[trigger] b[i]).credit_like && (b[i].black_ratio
                < t.black_threshold || b[i].text_ratio < t.text_threshold),
        forall|i: int|
            0 <= i < a.len() - 1 ==> 0 <= (#[trigger] a[i + 1]).time - a[i].time <= t.max_frame_gap,
        forall|i: int|
            0 <= i < c.len() - 1 ==> 0 <= (#[trigger] c[i + 1]).time - c[i].time <= t.max_frame_gap,
        forall|i: int| 0 <= i < b.len() - 1 ==> 0 <= (#[trigger] b[i + 1]).time - b[i].time,
        a.last().time < b[0].time,
        b.last().time <= c[0].time,
        b.len() >= t.scene_min_frames,
        b.last().time - b[0].time >= t.scene_min_span,
        a.len() >= t.min_frame_count,
        c.len() >= t.min_frame_count,
        a.last().time - a[0].time >= t.min_span,
        c.last().time - c[0].time >= t.min_span,
        b[0].time - a[0].time >= 15_000_000,
        duration - c[0].time >= 15_000_000,
    ensures
        ({
            let found = detected(a + b + c, duration, t);
            &&& found.len() == 2
            &&& -500 <= found[0].start - a[0].time <= 500
            &&& -500 <= found[0].end - b[0].time <= 500
            &&& found[0].post_credit_scene_start == Some(found[0].end)
            &&& found[0].frame_count == a.len()
            &&& -500 <= found[1].start - c[0].time <= 500
            &&& -500 <= found[1].end - duration <= 500
            &&& found[1].post_credit_scene_start is None
            &&& found[1].frame_count == c.len()
        }),
{
    let s = a + b + c;
    let m = (a.len() + b.len()) as int;
    assert forall|i: int| 0 <= i < s.len() implies late(#[trigger] s[i], duration, t) by {
        assert((a + b + c)[i] == s[i]);
    }
    lemma_all_late(s, duration, t);
    assert(close_credits(a, t)) by {
        assert forall|i: int| 0 <= i < a.len() implies credits_like(#[trigger] a[i], t) by {}
    }
    assert(close_credits(c, t)) by {
        assert forall|i: int| 0 <= i < c.len() implies credits_like(#[trigger] c[i], t) by {}
    }
    assert forall|i: int| 0 <= i < b.len() implies !credits_like(#[trigger] b[i], t) by {
        assert(!b[i].credit_like);
    }
    lemma_runs_of_three(a, b, c, t, s.len() as int);
    assert(c.take(s.len() - m) =~= c);
    let runs = runs_in(s, s.len() as int, t);
    assert(runs == seq![a, c]);
    let last = a.last().time;
    assert forall|k: int| 0 <= k < a.len() implies (#[trigger] s[k]).time <= last by {
        lemma_times_rise(a, k);
        assert(s[k] == a[k]);
    }
    assert(s[a.len() as int] == b[0]);
    lemma_first_after_is(s, last, 0, a.len() as int);
    lemma_next_credit_is(s, a.len() as int, m, t);
    assert(s.subrange(a.len() as int, m) =~= b);
    lemma_only_scene(b, t);
    assert(scene_after(s, last, t) == Some(b[0].time));
    let final_time = c.last().time;
    lemma_times_rise(b, 0);
    lemma_times_rise(c, 0);
    assert forall|k: int| 0 <= k < s.len() implies (#[trigger] s[k]).time <= final_time by {
        if k < a.len() {
            assert(s[k].time <= last);
        } else if k < m {
            lemma_times_rise(b, k - a.len());
            assert(s[k] == b[k - a.len()]);
        } else {
            lemma_times_rise(c, k - m);
            assert(s[k] == c[k - m]);
        }
    }
    lemma_first_after_is(s, final_time, 0, s.len() as int);
    assert(scene_after(s, final_time, t) is None);
    lemma_shortest_credits();
    lemma_two_segments(s, a, c, b[0].time, duration, t);
}

proof fn lemma_next_credit_is(s: Seq<VisualFrameSample>, i: int, m: int, t: VisualTuning)
    requires
        0 <= i <= m < s.len(),
        forall|k: int| i <= k < m ==> !credits_like(#[trigger] s[k], t),
        credits_like(s[m], t),
    ensures
        next_credit(s, i, t) == m,
    decreases m - i,
{
    if i < m {
        assert(!credits_like(s[i], t));
        lemma_next_credit_is(s, i + 1, m, t);
    }
}

proof fn lemma_two_segments(
    s: Seq<VisualFrameSample>,
    a: Seq<VisualFrameSample>,
    c: Seq<VisualFrameSample>,
    scene: i64,
    duration: i64,
    t: VisualTuning,
)
    requires
        duration > 0,
        a.len() > 0,
        c.len() > 0,
        a.len() <= usize::MAX,
        c.len() <= usize::MAX,
        late_of(s, duration, t) == s,
        runs_in(s, s.len() as int, t) == seq![a, c],
        scene_after(s, a.last().time, t) == Some(scene),
        scene_after(s, c.last().time, t) is None,
        a.len() >= t.min_frame_count,
        c.len() >= t.min_frame_count,
        a.last().time - a[0].time >= t.min_span,
        c.last().time - c[0].time >= t.min_span,
        scene - a[0].time >= candidate::shortest_segment("credits"@),
        duration - a[0].time >= candidate::shortest_segment("credits"@),
        duration - c[0].time >= candidate::shortest_segment("credits"@),
        a[0].time <= c[0].time,
    ensures
        ({
            let found = detected(s, duration, t);
            &&& found.len() == 2
            &&& -500 <= found[0].start - a[0].time <= 500
            &&& -500 <= found[0].end - scene <= 500
            &&& found[0].post_credit_scene_start == Some(found[0].end)
            &&& found[0].frame_count == a.len()
            &&& -500 <= found[1].start - c[0].time <= 500
            &&& -500 <= found[1].end - duration <= 500
            &&& found[1].post_credit_scene_start is None
            &&& found[1].frame_count == c.len()
        }),
{
    let runs = seq![a, c];
    let x = segment_of(s, a, duration, t);
    let y = segment_of(s, c, duration, t);
    assert(x is Some && y is Some);
    assert(runs.last() == c);
    assert(runs.drop_last() =~= seq![a]);
    assert(seq![a].last() == a);
    assert(seq![a].drop_last() =~= Seq::empty());
    assert(segments_of(s, seq![a].drop_last(), duration, t) =~= Seq::empty());
    assert(segments_of(s, seq![a], duration, t) =~= seq![x->0]);
    let both = segments_of(s, runs, duration, t);
    assert(both =~= seq![x->0, y->0]);
    rounding_keeps_order(a[0].time as int, c[0].time as int);
    lemma_arranged_one(x->0);
    assert(both.drop_last() =~= seq![x->0]);
    order::lemma_place_at(seq![x->0], y->0, starts_before(), 1);
    assert(seq![x->0].insert(1, y->0) =~= both);
    assert(order::arranged(both, starts_before()) == both);
}

/// The detector goes by what its settings say of it within their ranges, under either of
/// two names, and by the defaults otherwise.
pub proof fn tuning_is_read_from_the_settings(j: Json, n: i64)
    ensures
        json::json_get(j, "min_start_fraction"@) == Some(Json::Number(JsonNumber::Fraction(n))) ==> tuning_of(Some(j)).min_start_fraction == if 500_000 <= n <= 950_000 {
            n as int
        } else {
            600_000
        },
        json::json_get(j, "min_start_fraction"@) is None && json::json_get(j, "minStartFraction"@) == Some(Json::Number(JsonNumber::Fraction(n))) && 500_000 <= n <= 950_000
            ==> tuning_of(Some(j)).min_start_fraction == n,
        json::json_get(j, "max_frame_gap_seconds"@) == Some(Json::Number(JsonNumber::Fraction(n))) ==> tuning_of(Some(j)).max_frame_gap == if 5_000_000 <= n <= 300_000_000 {
            n as int
        } else {
            90_000_000
        },
        json::json_get(j, "max_frame_gap_seconds"@) is None && json::json_get(j, "maxFrameGapSeconds"@) == Some(Json::Number(JsonNumber::Fraction(n))) && 5_000_000 <= n <= 300_000_000
            ==> tuning_of(Some(j)).max_frame_gap == n,
        json::json_get(j, "min_frame_count"@) == Some(settings::whole_json(n)) ==> tuning_of(Some(j)).min_frame_count == if 2 <= n <= 20 {
            n as int
        } else {
            3
        },
        json::json_get(j, "min_frame_count"@) is None && json::json_get(j, "minFrameCount"@) == Some(settings::whole_json(n)) && 2 <= n <= 20
            ==> tuning_of(Some(j)).min_frame_count == n,
        json::json_get(j, "min_span_seconds"@) == Some(Json::Number(JsonNumber::Fraction(n))) ==> tuning_of(Some(j)).min_span == if 10_000_000 <= n <= 600_000_000 {
            n as int
        } else {
            20_000_000
        },
        json::json_get(j, "min_span_seconds"@) is None && json::json_get(j, "minSpanSeconds"@) == Some(Json::Number(JsonNumber::Fraction(n))) && 10_000_000 <= n <= 600_000_000
            ==> tuning_of(Some(j)).min_span == n,
        json::json_get(j, "post_credit_scene_min_frames"@) == Some(settings::whole_json(n)) ==> tuning_of(Some(j)).scene_min_frames == if 1 <= n <= 20 {
            n as int
        } else {
            2
        },
        json::json_get(j, "post_credit_scene_min_frames"@) is None && json::json_get(j, "postCreditSceneMinFrames"@) == Some(settings::whole_json(n)) && 1 <= n <= 20
            ==> tuning_of(Some(j)).scene_min_frames == n,
        json::json_get(j, "post_credit_scene_min_span_seconds"@) == Some(Json::Number(JsonNumber::Fraction(n))) ==> tuning_of(Some(j)).scene_min_span == if 5_000_000 <= n <= 300_000_000 {
            n as int
        } else {
            20_000_000
        },
        json::json_get(j, "post_credit_scene_min_span_seconds"@) is None && json::json_get(j, "postCreditSceneMinSpanSeconds"@) == Some(Json::Number(JsonNumber::Fraction(n))) && 5_000_000 <= n <= 300_000_000
            ==> tuning_of(Some(j)).scene_min_span == n,
        json::json_get(j, "black_ratio_threshold"@) == Some(Json::Number(JsonNumber::Fraction(n))) ==> tuning_of(Some(j)).black_threshold == if 100_000 <= n <= 1_000_000 {
            n as int
        } else {
            700_000
        },
        json::json_get(j, "black_ratio_threshold"@) is None && json::json_get(j, "blackRatioThreshold"@) == Some(Json::Number(JsonNumber::Fraction(n))) && 100_000 <= n <= 1_000_000
            ==> tuning_of(Some(j)).black_threshold == n,
        json::json_get(j, "text_ratio_threshold"@) == Some(Json::Number(JsonNumber::Fraction(n))) ==> tuning_of(Some(j)).text_threshold == if 10_000 <= n <= 1_000_000 {
            n as int
        } else {
            80_000
        },
        json::json_get(j, "text_ratio_threshold"@) is None && json::json_get(j, "textRatioThreshold"@) == Some(Json::Number(JsonNumber::Fraction(n))) && 10_000 <= n <= 1_000_000
            ==> tuning_of(Some(j)).text_threshold == n,
{
}

/// The length of a file is reported just where the detector is on and the length is known;
/// the late frames of credits just where the file is looked at.
pub proof fn lengths_and_credits_are_reported(
    r: LocalVisualDetectorSummary,
    media_file_id: Seq<char>,
    provider_settings: Option<Json>,
    context: Option<MediaContext>,
    payload: Option<Json>,
)
    requires
        visual_report(r, media_file_id, provider_settings, context, payload),
    ensures
        r.duration_seconds is Some <==> provider_settings is Some && json::json_get(
            provider_settings->0,
            "enabled"@,
        ) == Some(Json::Bool(true)) && context is Some && context->0.duration is Some
            && context->0.duration->0 > 0,
        r.duration_seconds is Some ==> -500_000 <= r.duration_seconds->0 * 1_000_000
            - context->0.duration->0 <= 500_000,
        visual_skip(provider_settings, context, payload) is Some ==> r.credits_like_frames == 0,
        visual_skip(provider_settings, context, payload) is None ==> r.credits_like_frames
            == credits_count(
            late_of(
                samples_of(payload->0),
                context->0.duration->0,
                tuning_of(provider_settings),
            ),
            tuning_of(provider_settings),
        ),
{
}

/// The late frames of a file are those from the given part of it on, up to five seconds
/// beyond its end.
pub proof fn late_frames_are_those_near_the_end(
    s: Seq<VisualFrameSample>,
    duration: i64,
    t: VisualTuning,
)
    ensures
        late_of(s, duration, t) == s.filter(
            |f: VisualFrameSample|
                f.time * 1_000_000 >= duration * t.min_start_fraction && f.time <= duration
                    + 5_000_000,
        ),
    decreases s.len(),
{
    reveal(Seq::filter);
    if s.len() > 0 {
        late_frames_are_those_near_the_end(s.drop_last(), duration, t);
    }
}

/// Each candidate that is submitted counts once, and as accepted where it was accepted and
/// as rejected otherwise.
pub proof fn submitted_candidates_count_once(state: &str, reason: Option<String>)
    ensures
        forall|s: &mut LocalVisualDetectorSummary|
            (*s).candidates_submitted < usize::MAX && (*s).candidates_accepted < usize::MAX
                && (*s).candidates_rejected < usize::MAX && #[trigger] call_ensures(
                count_visual_candidate,
                (s, state, reason),
                (),
            ) ==> {
                &&& (*final(s)).candidates_submitted == (*s).candidates_submitted + 1
                &&& state@ == "accepted"@ ==> (*final(s)).candidates_accepted
                    == (*s).candidates_accepted + 1 && (*final(s)).candidates_rejected
                    == (*s).candidates_rejected
                &&& state@ != "accepted"@ ==> (*final(s)).candidates_accepted
                    == (*s).candidates_accepted && (*final(s)).candidates_rejected
                    == (*s).candidates_rejected + 1
                &&& (*final(s)).active_segments == (*s).active_segments
            },
{
}

} // verus!
