//! Sampling the frames of a file: which frames are taken, and what is kept of
//! each.

use vstd::prelude::*;
use vstd::utf8::*;
use crate::consts;
use crate::error::{opt_text, refuse, SegmentError};
use crate::extraction::{self, probed_seconds, FileProbe, FingerprintMediaFile};
use crate::fingerprint::{self, push_four_bytes};
use crate::json::{self, saturate_i64, text_value, Json, JsonNumber, JsonValue};
use crate::normalize::is_media_segment_worker_shutdown_interruption;
use crate::outside;
use crate::order;
use crate::probe::{self, metadata_has_video_stream, MediaMetadata};
use crate::quantity::round_millis;
use crate::reading;
use crate::runs::LocalVisualFrameHashSummary;
use crate::settings::{self, provider_settings_enabled, whole_value};
use crate::text;
use crate::visual::{self, VisualFrameSample};

verus! {

/// A part of a file whose frames are taken, one every step. Times are in
/// microseconds.
#[derive(Debug, Clone)]
pub struct LocalVisualFrameHashRange {
    pub start: i64,
    pub end: i64,
    pub step: i64,
    /// The times of the frames.
    pub frames: Vec<i64>,
}

/// The same, as a mathematical value.
#[verifier::ext_equal]
pub struct FrameRange {
    pub start: i64,
    pub end: i64,
    pub step: i64,
    pub frames: Seq<i64>,
}

impl View for LocalVisualFrameHashRange {
    type V = FrameRange;

    open spec fn view(&self) -> FrameRange {
        FrameRange { start: self.start, end: self.end, step: self.step, frames: self.frames@ }
    }
}

/// The times of frames from a time on, one every step, while they lie within the
/// range (but for a millisecond) and there is room.
pub open spec fn frame_times(at: int, step: int, end: int, room: nat) -> Seq<i64>
    decreases room,
{
    if room == 0 || at > end + 1_000 {
        Seq::empty()
    } else {
        seq![visual::rounded(at)] + frame_times(at + step, step, end, (room - 1) as nat)
    }
}

/// Where the sampled part of a file starts: as late as credits start at the
/// earliest, and no more than an hour before its end.
pub open spec fn sampled_from(duration: int, fraction: int) -> int {
    let part = duration * fraction / 1_000_000;
    let last = duration - consts::LOCAL_VISUAL_FRAME_HASH_MAX_RANGE_MICROS;
    if part > last {
        part
    } else {
        last
    }
}

/// The time between two frames.
pub open spec fn step_of(provider_settings: Option<Json>) -> int {
    settings::fraction_setting(
        provider_settings,
        "frame_hash_step_seconds"@,
        "frameHashStepSeconds"@,
        5_000_000,
        120_000_000,
        consts::LOCAL_VISUAL_FRAME_HASH_STEP_MICROS as int,
    )
}

/// How many frames of a file are taken at most.
pub open spec fn most_frames_of(provider_settings: Option<Json>) -> nat {
    settings::whole_setting(
        provider_settings,
        "frame_hash_max_frames"@,
        "frameHashMaxFrames"@,
        10,
        500,
        consts::LOCAL_VISUAL_FRAME_HASH_MAX_FRAMES_PER_FILE as int,
    ) as nat
}

/// The range of a file that is sampled.
pub open spec fn frame_plan_of(duration: int, provider_settings: Option<Json>) -> Seq<FrameRange> {
    let from = sampled_from(
        duration,
        visual::tuning_of(provider_settings).min_start_fraction as int,
    );
    if duration <= consts::LOCAL_VISUAL_CREDITS_MIN_DURATION_MICROS || duration <= from {
        Seq::empty()
    } else {
        seq![
            FrameRange {
                start: visual::rounded(from),
                end: visual::rounded(duration),
                step: step_of(provider_settings) as i64,
                frames: frame_times(
                    from,
                    step_of(provider_settings),
                    duration,
                    most_frames_of(provider_settings),
                ),
            },
        ]
    }
}

/// Some ranges, as mathematical values.
pub open spec fn frame_ranges(v: Seq<LocalVisualFrameHashRange>) -> Seq<FrameRange> {
    v.map_values(|r: LocalVisualFrameHashRange| r@)
}

proof fn lemma_frame_times(at: int, step: int, end: int, room: nat)
    requires
        step >= 0,
    ensures
        frame_times(at, step, end, room).len() <= room,
        at <= end && room > 0 ==> frame_times(at, step, end, room).len() > 0,
        forall|i: int|
            0 <= i < frame_times(at, step, end, room).len() ==> visual::rounded(at)
                <= #[trigger] frame_times(at, step, end, room)[i] <= visual::rounded(end + 1_000),
    decreases room,
{
    if room > 0 && at <= end + 1_000 {
        lemma_frame_times(at + step, step, end, (room - 1) as nat);
        let rest = frame_times(at + step, step, end, (room - 1) as nat);
        let all = frame_times(at, step, end, room);
        visual::rounding_keeps_order(at, at + step);
        visual::rounding_keeps_order(at, end + 1_000);
        assert forall|i: int| 0 <= i < all.len() implies visual::rounded(at) <= #[trigger] all[i]
            <= visual::rounded(end + 1_000) by {
            if i > 0 {
                assert(all[i] == rest[i - 1]);
            }
        }
    }
}

/// The range of a file that is sampled, with the times of its frames.
pub fn local_visual_frame_hash_plan(duration: i64, provider_settings: Option<&JsonValue>) -> (r: Vec<
    LocalVisualFrameHashRange,
>)
    ensures
        frame_ranges(r@) == frame_plan_of(duration as int, json::opt_json(provider_settings)),
{
    let mut ranges: Vec<LocalVisualFrameHashRange> = Vec::new();
    proof {
        assert(frame_ranges(ranges@) =~= Seq::empty());
    }
    if duration <= consts::LOCAL_VISUAL_CREDITS_MIN_DURATION_MICROS {
        return ranges;
    }
    let fraction: i64 = settings::local_visual_min_start_fraction(provider_settings);
    proof {
        assert(0 <= duration * fraction / 1_000_000 <= duration) by (nonlinear_arith)
            requires
                duration >= 0,
                0 <= fraction <= 1_000_000,
        ;
        assert(0 <= duration * fraction <= 0x8000_0000_0000_0000 * 1_000_000) by (nonlinear_arith)
            requires
                0 <= duration <= 0x8000_0000_0000_0000,
                0 <= fraction <= 1_000_000,
        ;
    }
    let part: i64 = (duration as i128 * fraction as i128 / 1_000_000i128) as i64;
    let last: i64 = duration - consts::LOCAL_VISUAL_FRAME_HASH_MAX_RANGE_MICROS;
    let from: i64 = if part > last {
        part
    } else {
        last
    };
    if duration <= from {
        return ranges;
    }
    let step: i64 = settings::local_visual_frame_hash_step_micros(provider_settings);
    let most: usize = settings::local_visual_frame_hash_max_frames(provider_settings);
    let ghost all = frame_times(from as int, step as int, duration as int, most as nat);
    let mut frames: Vec<i64> = Vec::new();
    let mut at: i128 = from as i128;
    proof {
        assert(frames@ + all =~= all);
    }
    while at <= duration as i128 + 1_000 && frames.len() < most
        invariant
            0 <= at <= duration + 121_000_000,
            5_000_000 <= step <= 120_000_000,
            frames@.len() <= most,
            all == frames@ + frame_times(
                at as int,
                step as int,
                duration as int,
                (most - frames@.len()) as nat,
            ),
        decreases most - frames@.len(),
    {
        let ghost now = frames@;
        let time: i64 = round_millis(saturate_i64(at));
        frames.push(time);
        proof {
            let rest = frame_times(
                at + step,
                step as int,
                duration as int,
                (most - frames@.len()) as nat,
            );
            assert(now + (seq![time] + rest) =~= frames@ + rest);
        }
        at = at + step as i128;
    }
    proof {
        assert(frames@ + Seq::<i64>::empty() =~= frames@);
    }
    let range = LocalVisualFrameHashRange {
        start: round_millis(from),
        end: round_millis(duration),
        step,
        frames,
    };
    ranges.push(range);
    proof {
        assert(frame_ranges(ranges@) =~= seq![range@]);
    }
    ranges
}

/// A plan samples one late range of a file at most, with no more frames than the
/// settings allow; the range starts no earlier than credits may start, and all
/// its frames lie within it, but for a millisecond and the rounding.
pub proof fn frame_plan_is_bounded(duration: int, provider_settings: Option<Json>)
    requires
        0 <= duration <= i64::MAX,
    ensures
        ({
            let plan = frame_plan_of(duration, provider_settings);
            let fraction = visual::tuning_of(provider_settings).min_start_fraction;
            &&& plan.len() <= 1
            &&& plan.len() == 1 ==> {
                &&& 1 <= plan[0].frames.len() <= most_frames_of(provider_settings)
                &&& (plan[0].start + 501) * 1_000_000 >= duration * fraction
                &&& plan[0].end - plan[0].start
                    <= consts::LOCAL_VISUAL_FRAME_HASH_MAX_RANGE_MICROS + 1_000
                &&& plan[0].end <= duration + 500
                &&& forall|i: int|
                    0 <= i < plan[0].frames.len() ==> plan[0].start
                        <= #[trigger] plan[0].frames[i] <= plan[0].end + 2_000
            }
        }),
{
    let plan = frame_plan_of(duration, provider_settings);
    let fraction = visual::tuning_of(provider_settings).min_start_fraction as int;
    if plan.len() == 1 {
        let from = sampled_from(duration, fraction);
        lemma_frame_times(
            from,
            step_of(provider_settings),
            duration,
            most_frames_of(provider_settings),
        );
        let part = duration * fraction / 1_000_000;
        assert(part * 1_000_000 + 1_000_000 > duration * fraction) by (nonlinear_arith)
            requires
                part == duration * fraction / 1_000_000,
        ;
    }
}

/// How many of some pixels are dark.
pub open spec fn dark_count(frame: Seq<u8>) -> nat
    decreases frame.len(),
{
    if frame.len() == 0 {
        0
    } else {
        dark_count(frame.drop_last()) + if frame.last()
            <= consts::LOCAL_VISUAL_FRAME_BLACK_LUMA_THRESHOLD {
            1nat
        } else {
            0
        }
    }
}

/// Whether two pixels differ so much that an edge lies between them.
pub open spec fn is_edge(a: u8, b: u8) -> bool {
    a - b >= consts::LOCAL_VISUAL_FRAME_EDGE_LUMA_DELTA_THRESHOLD || b - a
        >= consts::LOCAL_VISUAL_FRAME_EDGE_LUMA_DELTA_THRESHOLD
}

/// How many of the first `n` pixels from a place on have an edge to the pixel
/// `gap` places on.
pub open spec fn edges_from(frame: Seq<u8>, at: int, gap: int, n: nat) -> nat
    decreases n,
{
    if n == 0 {
        0
    } else {
        edges_from(frame, at, gap, (n - 1) as nat) + if is_edge(
            frame[at + n - 1],
            frame[at + n - 1 + gap],
        ) {
            1nat
        } else {
            0
        }
    }
}

/// How many edges start in the first `rows` rows: to the right, and down but
/// from the last row.
pub open spec fn edges_in(frame: Seq<u8>, width: nat, height: nat, rows: nat) -> nat
    decreases rows,
{
    if rows == 0 {
        0
    } else {
        let at = (rows - 1) * width;
        edges_in(frame, width, height, (rows - 1) as nat) + edges_from(
            frame,
            at,
            1,
            (width - 1) as nat,
        ) + if rows < height {
            edges_from(frame, at, width as int, width)
        } else {
            0
        }
    }
}

/// How many neighbouring pixels a frame has.
pub open spec fn neighbours(width: nat, height: nat) -> int {
    height * (width - 1) + width * (height - 1)
}

/// A part of a whole in millionths, to the nearest; of nothing it is nothing.
pub open spec fn part_of(n: int, whole: int) -> int {
    if whole <= 0 {
        0
    } else {
        (2 * n * 1_000_000 + whole) / (2 * whole)
    }
}

/// Whether a frame has the pixels for its size.
pub open spec fn fills(frame: Seq<u8>, width: nat, height: nat) -> bool {
    width > 1 && height > 1 && frame.len() >= width * height
}

/// What the hash of a frame is taken of: the version, the size and the pixels.
pub open spec fn frame_bytes(frame: Seq<u8>, width: usize, height: usize) -> Seq<u8> {
    encode_utf8(consts::LOCAL_VISUAL_FRAME_HASH_VERSION@) + fingerprint::four_bytes(width as u32)
        + fingerprint::four_bytes(height as u32) + frame
}

/// A frame that was taken. The time is in microseconds, the ratios in
/// millionths.
#[derive(Debug, Clone)]
pub struct LocalVisualFrameHashOutputFrame {
    pub time: i64,
    pub black_ratio: i64,
    pub text_ratio: i64,
    pub hash: String,
}

/// The same, as a mathematical value.
#[verifier::ext_equal]
pub struct TakenFrame {
    pub time: i64,
    pub black_ratio: i64,
    pub text_ratio: i64,
    pub hash: Seq<char>,
}

impl View for LocalVisualFrameHashOutputFrame {
    type V = TakenFrame;

    open spec fn view(&self) -> TakenFrame {
        TakenFrame {
            time: self.time,
            black_ratio: self.black_ratio,
            text_ratio: self.text_ratio,
            hash: self.hash@,
        }
    }
}

/// What is kept of a frame.
pub open spec fn taken_frame(time: i64, frame: Seq<u8>, width: usize, height: usize) -> TakenFrame {
    TakenFrame {
        time: visual::rounded(time as int),
        black_ratio: part_of(dark_count(frame) as int, frame.len() as int) as i64,
        text_ratio: if fills(frame, width as nat, height as nat) {
            part_of(
                edges_in(frame, width as nat, height as nat, height as nat) as int,
                neighbours(width as nat, height as nat),
            ) as i64
        } else {
            0
        },
        hash: "lvf1:"@ + outside::blake3_hex_text(frame_bytes(frame, width, height)),
    }
}

proof fn lemma_dark_count(frame: Seq<u8>)
    ensures
        dark_count(frame) <= frame.len(),
    decreases frame.len(),
{
    if frame.len() > 0 {
        lemma_dark_count(frame.drop_last());
    }
}

proof fn lemma_edges_from(frame: Seq<u8>, at: int, gap: int, n: nat)
    ensures
        edges_from(frame, at, gap, n) <= n,
    decreases n,
{
    if n > 0 {
        lemma_edges_from(frame, at, gap, (n - 1) as nat);
    }
}

proof fn lemma_edges_in(frame: Seq<u8>, width: nat, height: nat, rows: nat)
    requires
        1 <= width,
        1 <= height,
        rows <= height,
    ensures
        edges_in(frame, width, height, rows) <= rows * (width - 1) + width * (if rows < height {
            rows as int
        } else {
            height - 1
        }),
    decreases rows,
{
    if rows > 0 {
        let prior = (rows - 1) as nat;
        lemma_edges_in(frame, width, height, prior);
        let at = (rows - 1) * width;
        lemma_edges_from(frame, at, 1, (width - 1) as nat);
        lemma_edges_from(frame, at, width as int, width);
        assert(rows * (width - 1) == prior * (width - 1) + (width - 1)) by (nonlinear_arith)
            requires
                prior == rows - 1,
        ;
        assert(width * rows == width * prior + width) by (nonlinear_arith)
            requires
                prior == rows - 1,
        ;
    } else {
        assert(0 * (width - 1) == 0) by (nonlinear_arith);
        assert(width * 0 == 0) by (nonlinear_arith);
    }
}

fn count_dark(frame: &Vec<u8>) -> (r: usize)
    ensures
        r == dark_count(frame@),
{
    let mut n: usize = 0;
    let mut i: usize = 0;
    proof {
        assert(frame@.take(0) =~= Seq::empty());
    }
    while i < frame.len()
        invariant
            i <= frame@.len(),
            n <= i,
            n == dark_count(frame@.take(i as int)),
        decreases frame@.len() - i,
    {
        proof {
            assert(frame@.take(i + 1).drop_last() =~= frame@.take(i as int));
        }
        if frame[i] <= consts::LOCAL_VISUAL_FRAME_BLACK_LUMA_THRESHOLD {
            n += 1;
        }
        i += 1;
    }
    proof {
        assert(frame@.take(frame@.len() as int) =~= frame@);
    }
    n
}

fn edge_between(a: u8, b: u8) -> (r: bool)
    ensures
        r == is_edge(a, b),
{
    (a >= b && a - b >= consts::LOCAL_VISUAL_FRAME_EDGE_LUMA_DELTA_THRESHOLD) || (b >= a && b - a
        >= consts::LOCAL_VISUAL_FRAME_EDGE_LUMA_DELTA_THRESHOLD)
}

fn count_edges_from(frame: &Vec<u8>, at: usize, gap: usize, n: usize) -> (r: usize)
    requires
        at + n + gap <= frame@.len(),
    ensures
        r == edges_from(frame@, at as int, gap as int, n as nat),
        r <= n,
{
    let total: usize = frame.len();
    let mut count: usize = 0;
    let mut i: usize = 0;
    while i < n
        invariant
            i <= n,
            count <= i,
            at + n + gap <= total == frame@.len(),
            count == edges_from(frame@, at as int, gap as int, i as nat),
        decreases n - i,
    {
        if edge_between(frame[at + i], frame[at + i + gap]) {
            count += 1;
        }
        i += 1;
    }
    count
}

fn count_edges(frame: &Vec<u8>, width: usize, height: usize) -> (r: u128)
    requires
        fills(frame@, width as nat, height as nat),
    ensures
        r == edges_in(frame@, width as nat, height as nat, height as nat),
{
    let total: usize = frame.len();
    let mut count: u128 = 0;
    let mut y: usize = 0;
    let mut at: usize = 0;
    proof {
        assert(0 * width == 0) by (nonlinear_arith);
    }
    while y < height
        invariant
            y <= height,
            width > 1,
            total == frame@.len(),
            width * height <= total,
            at == y * width,
            count <= y * (2 * width),
            y * (2 * width) <= 2 * total,
            count == edges_in(frame@, width as nat, height as nat, y as nat),
        decreases height - y,
    {
        proof {
            assert(y * width + width <= width * height) by (nonlinear_arith)
                requires
                    y + 1 <= height,
                    width >= 0,
            ;
            if y + 1 < height {
                assert(y * width + width + width <= width * height) by (nonlinear_arith)
                    requires
                        y + 2 <= height,
                        width >= 0,
                ;
            }
            assert((y + 1) * width == y * width + width) by (nonlinear_arith);
            assert((y + 1) * (2 * width) == y * (2 * width) + 2 * width) by (nonlinear_arith);
            assert((y + 1) * (2 * width) == 2 * ((y + 1) * width)) by (nonlinear_arith);
        }
        let right: usize = count_edges_from(frame, at, 1, width - 1);
        let mut here: u128 = right as u128;
        if y + 1 < height {
            let down: usize = count_edges_from(frame, at, width, width);
            here = here + down as u128;
        }
        count = count + here;
        at = at + width;
        y += 1;
    }
    count
}

fn ratio_of(n: u128, whole: u128) -> (r: i64)
    requires
        n <= whole <= 0x1_0000_0000_0000_0000 * 4,
    ensures
        r == part_of(n as int, whole as int),
        0 <= r <= 1_000_000,
{
    if whole == 0 {
        0
    } else {
        let top: u128 = 2 * n * 1_000_000 + whole;
        let twice: u128 = 2 * whole;
        proof {
            assert(0 <= top / twice <= 1_000_000) by (nonlinear_arith)
                requires
                    top == 2 * n * 1_000_000 + whole,
                    twice == 2 * whole,
                    0 <= n <= whole,
                    whole > 0,
            ;
        }
        (top / twice) as i64
    }
}

/// What is kept of a frame in shades of grey.
pub fn local_visual_frame_hash_for_gray_frame(
    time: i64,
    frame: &Vec<u8>,
    width: usize,
    height: usize,
) -> (r: LocalVisualFrameHashOutputFrame)
    ensures
        r@ == taken_frame(time, frame@, width, height),
        0 <= r.black_ratio <= 1_000_000,
        0 <= r.text_ratio <= 1_000_000,
{
    proof {
        lemma_dark_count(frame@);
    }
    let pixels: usize = frame.len();
    let dark: usize = count_dark(frame);
    let black_ratio: i64 = ratio_of(dark as u128, pixels as u128);
    let mut text_ratio: i64 = 0;
    proof {
        assert(width * height <= 0xffff_ffff_ffff_ffff * 0xffff_ffff_ffff_ffff)
            by (nonlinear_arith)
            requires
                0 <= width <= 0xffff_ffff_ffff_ffff,
                0 <= height <= 0xffff_ffff_ffff_ffff,
        ;
    }
    if width > 1 && height > 1 && pixels as u128 >= width as u128 * height as u128 {
        let edges: u128 = count_edges(frame, width, height);
        proof {
            lemma_edges_in(frame@, width as nat, height as nat, height as nat);
            assert(height * (width - 1) <= width * height) by (nonlinear_arith)
                requires
                    height >= 0,
                    width >= 0,
            ;
            assert(width * (height - 1) <= width * height) by (nonlinear_arith)
                requires
                    height >= 0,
                    width >= 0,
            ;
            assert(height * (width - 1) >= 0) by (nonlinear_arith)
                requires
                    height >= 0,
                    width >= 1,
            ;
            assert(width * (height - 1) >= 0) by (nonlinear_arith)
                requires
                    height >= 1,
                    width >= 0,
            ;
        }
        let across: u128 = height as u128 * (width as u128 - 1);
        let down: u128 = width as u128 * (height as u128 - 1);
        text_ratio = ratio_of(edges, across + down);
    }
    let mut bytes: Vec<u8> = consts::LOCAL_VISUAL_FRAME_HASH_VERSION.as_bytes_vec();
    push_four_bytes(&mut bytes, #[verifier::truncate] (width as u32));
    push_four_bytes(&mut bytes, #[verifier::truncate] (height as u32));
    let ghost head = bytes@;
    let mut i: usize = 0;
    proof {
        assert(head + frame@.take(0) =~= head);
    }
    while i < pixels
        invariant
            i <= pixels == frame@.len(),
            bytes@ == head + frame@.take(i as int),
        decreases pixels - i,
    {
        bytes.push(frame[i]);
        i += 1;
        proof {
            assert(bytes@ =~= head + frame@.take(i as int));
        }
    }
    proof {
        assert(frame@.take(pixels as int) =~= frame@);
    }
    let hex = outside::blake3_hex(&bytes);
    LocalVisualFrameHashOutputFrame {
        time: round_millis(time),
        black_ratio,
        text_ratio,
        hash: text::join2("lvf1:", hex.as_str()),
    }
}

/// How many bytes a frame has.
pub const FRAME_BYTES: usize = 14_400;

/// Some frames, as mathematical values.
pub open spec fn taken_frames(v: Seq<LocalVisualFrameHashOutputFrame>) -> Seq<TakenFrame> {
    v.map_values(|f: LocalVisualFrameHashOutputFrame| f@)
}

/// The frames in the bytes of a range, one after the other, as many as there are
/// whole ones and times for.
pub open spec fn frames_in(raw: Seq<u8>, times: Seq<i64>) -> Seq<TakenFrame> {
    let whole = raw.len() / 14_400;
    let n = if whole < times.len() {
        whole
    } else {
        times.len()
    };
    Seq::new(
        n,
        |k: int| taken_frame(times[k], raw.subrange(k * 14_400, k * 14_400 + 14_400), 160, 90),
    )
}

/// The frames in the bytes of a range.
pub fn local_visual_frames_of_range(raw: &Vec<u8>, times: &Vec<i64>) -> (r: Vec<
    LocalVisualFrameHashOutputFrame,
>)
    ensures
        taken_frames(r@) == frames_in(raw@, times@),
{
    let total: usize = raw.len();
    let whole: usize = total / FRAME_BYTES;
    let n: usize = if whole < times.len() {
        whole
    } else {
        times.len()
    };
    let mut out: Vec<LocalVisualFrameHashOutputFrame> = Vec::new();
    let mut k: usize = 0;
    while k < n
        invariant
            k <= n,
            n <= times@.len(),
            n * 14_400 <= total == raw@.len(),
            out@.len() == k,
            forall|j: int|
                0 <= j < k ==> (#[trigger] out@[j])@ == taken_frame(
                    times@[j],
                    raw@.subrange(j * 14_400, j * 14_400 + 14_400),
                    160,
                    90,
                ),
        decreases n - k,
    {
        let at: usize = k * 14_400;
        let mut frame: Vec<u8> = Vec::new();
        let mut i: usize = 0;
        while i < 14_400
            invariant
                i <= 14_400,
                at + 14_400 <= total == raw@.len(),
                frame@ == raw@.subrange(at as int, at + i),
            decreases 14_400 - i,
        {
            frame.push(raw[at + i]);
            i += 1;
            proof {
                assert(frame@ =~= raw@.subrange(at as int, at + i));
            }
        }
        let taken = local_visual_frame_hash_for_gray_frame(times[k], &frame, 160, 90);
        out.push(taken);
        k += 1;
    }
    proof {
        assert(taken_frames(out@) =~= frames_in(raw@, times@));
    }
    out
}

/// What is kept of a sampled range.
pub open spec fn range_json(r: FrameRange) -> Json {
    Json::Object(
        seq![
            ("end_seconds"@, visual::fraction_json(r.end)),
            ("frames_planned"@, Json::Number(JsonNumber::Unsigned(r.frames.len() as u64))),
            ("start_seconds"@, visual::fraction_json(r.start)),
            ("step_seconds"@, visual::fraction_json(r.step)),
        ],
    )
}

/// What is kept of a frame, in a payload.
pub open spec fn frame_json(f: TakenFrame) -> Json {
    Json::Object(
        seq![
            ("black_ratio"@, visual::fraction_json(f.black_ratio)),
            ("hash"@, Json::Text(f.hash)),
            ("text_ratio"@, visual::fraction_json(f.text_ratio)),
            ("time_seconds"@, visual::fraction_json(f.time)),
        ],
    )
}

/// What is kept of the frames of a file.
pub open spec fn frames_json(
    duration_seconds: i64,
    plan: Seq<FrameRange>,
    frames: Seq<TakenFrame>,
) -> Json {
    Json::Object(
        seq![
            ("detector"@, Json::Text(consts::PROVIDER_LOCAL_VISUAL_RECURRING@)),
            ("duration_seconds"@, settings::whole_json(duration_seconds)),
            (
                "extraction_ranges"@,
                Json::Array(plan.map_values(|r: FrameRange| range_json(r))),
            ),
            ("frame_height"@, Json::Number(JsonNumber::Unsigned(90))),
            ("frame_width"@, Json::Number(JsonNumber::Unsigned(160))),
            ("frames"@, Json::Array(frames.map_values(|f: TakenFrame| frame_json(f)))),
            ("version"@, Json::Text(consts::LOCAL_VISUAL_FRAME_HASH_VERSION@)),
        ],
    )
}

fn ranges_value(plan: &Vec<LocalVisualFrameHashRange>) -> (v: JsonValue)
    ensures
        v@ == Json::Array(frame_ranges(plan@).map_values(|r: FrameRange| range_json(r))),
{
    let ghost all = frame_ranges(plan@).map_values(|r: FrameRange| range_json(r));
    let mut out: Vec<JsonValue> = Vec::new();
    let mut i: usize = 0;
    while i < plan.len()
        invariant
            i <= plan@.len(),
            out@.len() == i,
            all == frame_ranges(plan@).map_values(|r: FrameRange| range_json(r)),
            forall|j: int| 0 <= j < i ==> #[trigger] out@[j]@ == all[j],
        decreases plan@.len() - i,
    {
        let n: usize = plan[i].frames.len();
        let mut o: Vec<(String, JsonValue)> = Vec::new();
        o.push(("end_seconds".to_owned(), JsonValue::Number(JsonNumber::Fraction(plan[i].end))));
        o.push(("frames_planned".to_owned(), JsonValue::Number(JsonNumber::Unsigned(n as u64))));
        o.push(
            ("start_seconds".to_owned(), JsonValue::Number(JsonNumber::Fraction(plan[i].start))),
        );
        o.push(("step_seconds".to_owned(), JsonValue::Number(JsonNumber::Fraction(plan[i].step))));
        proof {
            json::lemma_view_object(o);
            assert(json::members_of(o@) =~= range_json(plan@[i as int]@)->Object_0);
        }
        out.push(JsonValue::Object(o));
        i += 1;
    }
    proof {
        assert forall|j: int| 0 <= j < all.len() implies #[trigger] all[j] == json::json_of(
            out@[j],
        ) by {
            assert(out@[j]@ == all[j]);
        }
        json::lemma_view_array(out, all);
    }
    JsonValue::Array(out)
}

fn frames_value(frames: &Vec<LocalVisualFrameHashOutputFrame>) -> (v: JsonValue)
    ensures
        v@ == Json::Array(taken_frames(frames@).map_values(|f: TakenFrame| frame_json(f))),
{
    let ghost all = taken_frames(frames@).map_values(|f: TakenFrame| frame_json(f));
    let mut out: Vec<JsonValue> = Vec::new();
    let mut i: usize = 0;
    while i < frames.len()
        invariant
            i <= frames@.len(),
            out@.len() == i,
            all == taken_frames(frames@).map_values(|f: TakenFrame| frame_json(f)),
            forall|j: int| 0 <= j < i ==> #[trigger] out@[j]@ == all[j],
        decreases frames@.len() - i,
    {
        let mut o: Vec<(String, JsonValue)> = Vec::new();
        o.push(
            (
                "black_ratio".to_owned(),
                JsonValue::Number(JsonNumber::Fraction(frames[i].black_ratio)),
            ),
        );
        o.push(("hash".to_owned(), text_value(frames[i].hash.as_str())));
        o.push(
            (
                "text_ratio".to_owned(),
                JsonValue::Number(JsonNumber::Fraction(frames[i].text_ratio)),
            ),
        );
        o.push(
            ("time_seconds".to_owned(), JsonValue::Number(JsonNumber::Fraction(frames[i].time))),
        );
        proof {
            json::lemma_view_object(o);
            assert(json::members_of(o@) =~= frame_json(frames@[i as int]@)->Object_0);
        }
        out.push(JsonValue::Object(o));
        i += 1;
    }
    proof {
        assert forall|j: int| 0 <= j < all.len() implies #[trigger] all[j] == json::json_of(
            out@[j],
        ) by {
            assert(out@[j]@ == all[j]);
        }
        json::lemma_view_array(out, all);
    }
    JsonValue::Array(out)
}

/// What is kept of the frames of a file.
pub fn local_visual_frame_hash_payload(
    duration_seconds: i64,
    plan: &Vec<LocalVisualFrameHashRange>,
    frames: &Vec<LocalVisualFrameHashOutputFrame>,
) -> (v: JsonValue)
    ensures
        v@ == frames_json(duration_seconds, frame_ranges(plan@), taken_frames(frames@)),
{
    let mut o: Vec<(String, JsonValue)> = Vec::new();
    o.push(("detector".to_owned(), text_value(consts::PROVIDER_LOCAL_VISUAL_RECURRING)));
    o.push(("duration_seconds".to_owned(), whole_value(duration_seconds)));
    o.push(("extraction_ranges".to_owned(), ranges_value(plan)));
    o.push(("frame_height".to_owned(), JsonValue::Number(JsonNumber::Unsigned(90))));
    o.push(("frame_width".to_owned(), JsonValue::Number(JsonNumber::Unsigned(160))));
    o.push(("frames".to_owned(), frames_value(frames)));
    o.push(("version".to_owned(), text_value(consts::LOCAL_VISUAL_FRAME_HASH_VERSION)));
    proof {
        json::lemma_view_object(o);
        assert(json::members_of(o@) =~= frames_json(
            duration_seconds,
            frame_ranges(plan@),
            taken_frames(frames@),
        )->Object_0);
    }
    JsonValue::Object(o)
}

/// What a sampling reports, but for its frames.
pub open spec fn frame_summary_is(
    r: LocalVisualFrameHashSummary,
    media_file_id: Seq<char>,
    reason: Option<Seq<char>>,
    size: Option<i64>,
    seconds: Option<i64>,
) -> bool {
    &&& r.media_file_id@ == media_file_id
    &&& r.fingerprint_version@ == consts::LOCAL_VISUAL_FRAME_HASH_VERSION@
    &&& r.frame_width == 160
    &&& r.frame_height == 90
    &&& r.status@ == if reason is Some {
        "skipped"@
    } else {
        "ok"@
    }
    &&& opt_text(r.reason) == reason
    &&& r.file_size_bytes == size
    &&& r.duration_seconds == seconds
}

fn new_frame_summary(
    media_file_id: &str,
    reason: Option<String>,
    size: Option<i64>,
    seconds: Option<i64>,
) -> (r: LocalVisualFrameHashSummary)
    ensures
        frame_summary_is(r, media_file_id@, opt_text(reason), size, seconds),
        r.extraction_ranges == 0,
        r.frames_planned == 0,
        r.frames_extracted == 0,
{
    let status = if reason.is_some() {
        "skipped"
    } else {
        "ok"
    };
    LocalVisualFrameHashSummary {
        media_file_id: media_file_id.to_owned(),
        status: status.to_owned(),
        duration_seconds: seconds,
        file_size_bytes: size,
        extraction_ranges: 0,
        frames_planned: 0,
        frames_extracted: 0,
        frame_width: 160,
        frame_height: 90,
        fingerprint_version: consts::LOCAL_VISUAL_FRAME_HASH_VERSION.to_owned(),
        reason,
    }
}

/// The report where the detector is switched off; there is none where it is on.
pub fn frame_hash_switched_off(
    media_file_id: &str,
    provider_settings: Option<&JsonValue>,
) -> (r: Option<LocalVisualFrameHashSummary>)
    ensures
        r is Some <==> !settings::enabled_setting(json::opt_json(provider_settings), false),
        r is Some ==> frame_summary_is(
            r->0,
            media_file_id@,
            Some("local_visual_detector_disabled"@),
            None,
            None,
        ) && r->0.extraction_ranges == 0 && r->0.frames_planned == 0 && r->0.frames_extracted == 0,
{
    if provider_settings_enabled(provider_settings) {
        None
    } else {
        let reason = Some("local_visual_detector_disabled".to_owned());
        Some(new_frame_summary(media_file_id, reason, None, None))
    }
}

/// How the sampling of a file goes on.
#[derive(Debug)]
pub struct FrameHashPlan {
    /// The report so far; what is skipped goes no further.
    pub summary: LocalVisualFrameHashSummary,
    /// The ranges that are to be taken.
    pub ranges: Vec<LocalVisualFrameHashRange>,
    /// Whether what the probe says is kept though there are no frames.
    pub keeps_probe: bool,
}

/// Whether a file has video.
pub open spec fn has_video(m: MediaMetadata) -> bool {
    probe::has_stream(m.streams@, "video"@) || probe::codec_named(opt_text(m.video_codec))
}

/// Why a file is not sampled: it is not playable, cannot be opened or probed,
/// has no video, is too short, or its length is not known.
pub open spec fn frame_file_skip(file: FingerprintMediaFile, probe: Option<FileProbe>) -> Option<
    Seq<char>,
> {
    if file.scan_state@ != "ok"@ {
        Some("media_file_not_playable"@)
    } else {
        match probe->0 {
            FileProbe::Unavailable(e) => Some("file_unavailable:"@ + e@),
            FileProbe::Failed(_, e) => Some("ffprobe_failed:"@ + e@),
            FileProbe::TimedOut(_) => Some("ffprobe_timeout"@),
            FileProbe::Probed(_, m) => {
                let seconds = extraction::known_seconds(m.duration_seconds, file.duration_seconds);
                if !has_video(m) {
                    Some("no_video_stream"@)
                } else if seconds is None {
                    Some("unknown_duration"@)
                } else if seconds->0 <= 300 {
                    Some("duration_too_short"@)
                } else {
                    None
                }
            },
        }
    }
}

/// Whether a plan is the one of a file.
pub open spec fn plans_frames(
    r: FrameHashPlan,
    media_file_id: Seq<char>,
    provider_settings: Option<Json>,
    file: FingerprintMediaFile,
    probe: Option<FileProbe>,
) -> bool {
    let skip = frame_file_skip(file, probe);
    let length = fingerprint::known_length(file, probe);
    let plan = if skip is None {
        frame_plan_of(fingerprint::micros_of(length->0), provider_settings)
    } else {
        Seq::empty()
    };
    let reason = if skip is Some {
        skip
    } else if plan.len() == 0 {
        Some("no_video_frame_hash_samples"@)
    } else {
        None
    };
    &&& frame_summary_is(
        r.summary,
        media_file_id,
        reason,
        fingerprint::known_size(file, probe),
        length,
    )
    &&& r.summary.extraction_ranges == plan.len()
    &&& r.summary.frames_planned == if plan.len() == 1 {
        plan[0].frames.len()
    } else {
        0
    }
    &&& r.summary.frames_extracted == 0
    &&& frame_ranges(r.ranges@) == plan
    &&& r.keeps_probe == (skip == Some("no_video_stream"@))
}

fn stopped(summary: LocalVisualFrameHashSummary, keeps_probe: bool) -> (r: FrameHashPlan)
    ensures
        r.summary == summary,
        frame_ranges(r.ranges@) =~= Seq::empty(),
        r.keeps_probe == keeps_probe,
{
    FrameHashPlan { summary, ranges: Vec::new(), keeps_probe }
}

proof fn lemma_reasons_differ()
    ensures
        forall|e: Seq<char>| #[trigger] ("file_unavailable:"@ + e) != "no_video_stream"@,
        forall|e: Seq<char>| #[trigger] ("ffprobe_failed:"@ + e) != "no_video_stream"@,
        "ffprobe_timeout"@ != "no_video_stream"@,
        "unknown_duration"@ != "no_video_stream"@,
        "duration_too_short"@ != "no_video_stream"@,
        "media_file_not_playable"@ != "no_video_stream"@,
{
    reveal_strlit("no_video_stream");
    reveal_strlit("file_unavailable:");
    reveal_strlit("ffprobe_failed:");
    reveal_strlit("ffprobe_timeout");
    reveal_strlit("unknown_duration");
    reveal_strlit("duration_too_short");
    reveal_strlit("media_file_not_playable");
    assert("no_video_stream"@[0] == 'n');
    assert("ffprobe_timeout"@[0] == 'f' && "unknown_duration"@[0] == 'u');
    assert("duration_too_short"@[0] == 'd' && "media_file_not_playable"@[0] == 'm');
    assert forall|e: Seq<char>| #[trigger] ("file_unavailable:"@ + e) != "no_video_stream"@ by {
        assert(("file_unavailable:"@ + e)[0] == 'f');
    }
    assert forall|e: Seq<char>| #[trigger] ("ffprobe_failed:"@ + e) != "no_video_stream"@ by {
        assert(("ffprobe_failed:"@ + e)[0] == 'f');
    }
}

/// Plans the sampling of a file that the detector is on for. A playable file was
/// opened and probed.
pub fn plan_frame_hash(
    media_file_id: &str,
    provider_settings: Option<&JsonValue>,
    file: &FingerprintMediaFile,
    probe: Option<&FileProbe>,
) -> (r: FrameHashPlan)
    requires
        file.scan_state@ == "ok"@ ==> probe is Some,
    ensures
        plans_frames(
            r,
            media_file_id@,
            json::opt_json(provider_settings),
            *file,
            match probe {
                Some(p) => Some(*p),
                None => None,
            },
        ),
{
    proof {
        lemma_reasons_differ();
    }
    if !text::str_eq(file.scan_state.as_str(), "ok") {
        let reason = Some("media_file_not_playable".to_owned());
        return stopped(new_frame_summary(media_file_id, reason, None, None), false);
    }
    let probe: &FileProbe = match probe {
        Some(p) => p,
        None => {
            return stopped(new_frame_summary(media_file_id, None, None, None), false);
        },
    };
    match probe {
        FileProbe::Unavailable(e) => {
            let reason = Some(text::join2("file_unavailable:", e.as_str()));
            stopped(new_frame_summary(media_file_id, reason, file.size_bytes, None), false)
        },
        FileProbe::Failed(size, e) => {
            let reason = Some(text::join2("ffprobe_failed:", e.as_str()));
            stopped(new_frame_summary(media_file_id, reason, Some(*size), None), false)
        },
        FileProbe::TimedOut(size) => {
            let reason = Some("ffprobe_timeout".to_owned());
            stopped(new_frame_summary(media_file_id, reason, Some(*size), None), false)
        },
        FileProbe::Probed(size, metadata) => {
            let known = probed_seconds(metadata, file);
            if !metadata_has_video_stream(metadata) {
                let reason = Some("no_video_stream".to_owned());
                return stopped(
                    new_frame_summary(media_file_id, reason, Some(*size), known),
                    true,
                );
            }
            let seconds: i64 = match known {
                Some(n) => n,
                None => {
                    let reason = Some("unknown_duration".to_owned());
                    return stopped(
                        new_frame_summary(media_file_id, reason, Some(*size), None),
                        false,
                    );
                },
            };
            if seconds <= 300 {
                let reason = Some("duration_too_short".to_owned());
                return stopped(
                    new_frame_summary(media_file_id, reason, Some(*size), known),
                    false,
                );
            }
            let duration: i64 = saturate_i64(seconds as i128 * 1_000_000i128);
            let ranges = local_visual_frame_hash_plan(duration, provider_settings);
            proof {
                frame_plan_is_bounded(duration as int, json::opt_json(provider_settings));
            }
            if ranges.len() == 0 {
                let reason = Some("no_video_frame_hash_samples".to_owned());
                return stopped(
                    new_frame_summary(media_file_id, reason, Some(*size), known),
                    false,
                );
            }
            proof {
                assert(frame_ranges(ranges@)[0] == ranges@[0]@);
            }
            let mut summary = new_frame_summary(media_file_id, None, Some(*size), known);
            summary.extraction_ranges = ranges.len();
            summary.frames_planned = ranges[0].frames.len();
            FrameHashPlan { summary, ranges, keeps_probe: false }
        },
    }
}

/// Refuses an extraction of which every range failed.
pub fn check_frame_extraction(frames: usize, failed_ranges: usize) -> (r: Result<(), SegmentError>)
    ensures
        r is Err <==> frames == 0 && failed_ranges > 0,
        r matches Err(e) ==> e.message@
            == "all local visual frame hash extraction ranges failed"@,
{
    if frames == 0 && failed_ranges > 0 {
        Err(refuse("all local visual frame hash extraction ranges failed"))
    } else {
        Ok(())
    }
}

/// Ends the sampling of a file: with the report, and what is kept of its frames
/// where there are any. A shutdown is passed on.
pub fn finish_frame_hash(
    summary: LocalVisualFrameHashSummary,
    duration_seconds: i64,
    plan: &Vec<LocalVisualFrameHashRange>,
    outcome: Result<Vec<LocalVisualFrameHashOutputFrame>, String>,
) -> (r: Result<(LocalVisualFrameHashSummary, Option<JsonValue>), SegmentError>)
    ensures
        match outcome {
            Err(m) => if text::contains_seq(m@, "interrupted by shutdown"@) {
                r matches Err(e) && e.message@ == m@
            } else {
                r matches Ok((s, p)) && p is None && s == (LocalVisualFrameHashSummary {
                    status: s.status,
                    reason: s.reason,
                    ..summary
                }) && s.status@ == "skipped"@ && opt_text(s.reason) == Some(
                    "ffmpeg_failed:"@ + m@,
                )
            },
            Ok(f) => if f@.len() == 0 {
                r matches Ok((s, p)) && p is None && s == (LocalVisualFrameHashSummary {
                    status: s.status,
                    reason: s.reason,
                    frames_extracted: 0,
                    ..summary
                }) && s.status@ == "skipped"@ && opt_text(s.reason) == Some(
                    "video_frame_hash_extraction_empty"@,
                )
            } else {
                r matches Ok((s, p)) && json::opt_value(p) == Some(
                    frames_json(duration_seconds, frame_ranges(plan@), taken_frames(f@)),
                ) && s == (LocalVisualFrameHashSummary {
                    frames_extracted: f@.len() as usize,
                    ..summary
                })
            },
        },
{
    let mut summary = summary;
    match outcome {
        Err(message) => {
            if is_media_segment_worker_shutdown_interruption(message.as_str()) {
                return Err(refuse(message.as_str()));
            }
            summary.status = "skipped".to_owned();
            summary.reason = Some(text::join2("ffmpeg_failed:", message.as_str()));
            Ok((summary, None))
        },
        Ok(frames) => {
            summary.frames_extracted = frames.len();
            if frames.len() == 0 {
                summary.status = "skipped".to_owned();
                summary.reason = Some("video_frame_hash_extraction_empty".to_owned());
                return Ok((summary, None));
            }
            let payload = local_visual_frame_hash_payload(duration_seconds, plan, &frames);
            Ok((summary, Some(payload)))
        },
    }
}

/// The sample that the detector makes of a frame that was taken.
pub open spec fn sample_of_taken(f: TakenFrame) -> VisualFrameSample {
    VisualFrameSample {
        time: f.time,
        black_ratio: f.black_ratio,
        text_ratio: f.text_ratio,
        credit_like: false,
    }
}

proof fn lemma_no_credit_mark(f: TakenFrame, keys: Seq<Seq<char>>)
    requires
        forall|i: int|
            0 <= i < keys.len() ==> (#[trigger] keys[i]).len() > 0 && (keys[i][0] == 'c'
                || keys[i][0] == 'i'),
    ensures
        reading::first_bool(frame_json(f), keys) is None,
    decreases keys.len(),
{
    if keys.len() > 0 {
        reveal_strlit("black_ratio");
        reveal_strlit("hash");
        reveal_strlit("text_ratio");
        reveal_strlit("time_seconds");
        let members = frame_json(f)->Object_0;
        assert(keys[0].len() > 0);
        assert("black_ratio"@[0] == 'b' && "hash"@[0] == 'h' && "text_ratio"@[0] == 't'
            && "time_seconds"@[0] == 't');
        json::lemma_lookup_absent(members, keys[0]);
        let rest = keys.drop_first();
        assert forall|i: int| 0 <= i < rest.len() implies (#[trigger] rest[i]).len() > 0 && (
        rest[i][0] == 'c' || rest[i][0] == 'i') by {
            assert(rest[i] == keys[i + 1]);
        }
        lemma_no_credit_mark(f, rest);
    }
}

proof fn lemma_frame_reads_back(f: TakenFrame)
    requires
        f.time >= 0,
        0 <= f.black_ratio <= 1_000_000,
        0 <= f.text_ratio <= 1_000_000,
    ensures
        visual::sample_of(frame_json(f)) == Some(sample_of_taken(f)),
{
    reveal_strlit("black_ratio");
    reveal_strlit("hash");
    reveal_strlit("text_ratio");
    reveal_strlit("time_seconds");
    assert("black_ratio"@.len() == 11 && "hash"@.len() == 4 && "text_ratio"@.len() == 10
        && "time_seconds"@.len() == 12);
    let members = frame_json(f)->Object_0;
    json::lemma_lookup_at(members, "black_ratio"@, 0);
    json::lemma_lookup_at(members, "text_ratio"@, 2);
    json::lemma_lookup_at(members, "time_seconds"@, 3);
    assert(visual::frame_time_names()[0] == "time_seconds"@);
    assert(visual::black_names()[0] == "black_ratio"@);
    assert(visual::text_names()[0] == "text_ratio"@);
    reveal_strlit("credit_like");
    reveal_strlit("creditLike");
    reveal_strlit("credits_like");
    reveal_strlit("creditsLike");
    reveal_strlit("is_credit");
    reveal_strlit("isCredit");
    reveal_strlit("is_credits");
    reveal_strlit("isCredits");
    let keys = visual::credit_names();
    assert(keys[0][0] == 'c' && keys[1][0] == 'c' && keys[2][0] == 'c' && keys[3][0] == 'c');
    assert(keys[4][0] == 'i' && keys[5][0] == 'i' && keys[6][0] == 'i' && keys[7][0] == 'i');
    lemma_no_credit_mark(f, keys);
}

proof fn lemma_frames_read_back(frames: Seq<TakenFrame>)
    requires
        forall|i: int| 0 <= i < frames.len() ==> frame_sound(#[trigger] frames[i]),
    ensures
        visual::samples_in(frames.map_values(|f: TakenFrame| frame_json(f))) == frames.map_values(
            |f: TakenFrame| sample_of_taken(f),
        ),
    decreases frames.len(),
{
    let kept = frames.map_values(|f: TakenFrame| frame_json(f));
    let samples = frames.map_values(|f: TakenFrame| sample_of_taken(f));
    if frames.len() > 0 {
        let rest = frames.drop_last();
        assert forall|i: int| 0 <= i < rest.len() implies frame_sound(#[trigger] rest[i]) by {
            assert(frame_sound(frames[i]));
        }
        lemma_frames_read_back(rest);
        assert(kept.drop_last() =~= rest.map_values(|f: TakenFrame| frame_json(f)));
        assert(frame_sound(frames[frames.len() - 1]));
        lemma_frame_reads_back(frames.last());
        assert(samples =~= rest.map_values(|f: TakenFrame| sample_of_taken(f)).push(
            sample_of_taken(frames.last()),
        ));
    } else {
        assert(samples =~= Seq::empty());
    }
}

/// Whether a frame lies in the file and its ratios are parts of one.
pub open spec fn frame_sound(f: TakenFrame) -> bool {
    f.time >= 0 && 0 <= f.black_ratio <= 1_000_000 && 0 <= f.text_ratio <= 1_000_000
}

/// What is kept of the frames of a file is what the detector reads of it: every
/// frame with its time and ratios, by the time.
pub proof fn kept_frames_read_back(
    duration_seconds: i64,
    plan: Seq<FrameRange>,
    frames: Seq<TakenFrame>,
)
    requires
        forall|i: int| 0 <= i < frames.len() ==> frame_sound(#[trigger] frames[i]),
    ensures
        visual::samples_of(frames_json(duration_seconds, plan, frames)) == order::arranged(
            frames.map_values(|f: TakenFrame| sample_of_taken(f)),
            visual::earlier(),
        ),
{
    let payload = frames_json(duration_seconds, plan, frames);
    let members = payload->Object_0;
    reveal_strlit("detector");
    reveal_strlit("duration_seconds");
    reveal_strlit("extraction_ranges");
    reveal_strlit("frame_height");
    reveal_strlit("frame_width");
    reveal_strlit("frames");
    assert("detector"@.len() == 8 && "duration_seconds"@.len() == 16
        && "extraction_ranges"@.len() == 17 && "frame_height"@.len() == 12
        && "frame_width"@.len() == 11 && "frames"@.len() == 6);
    json::lemma_lookup_at(members, "frames"@, 5);
    assert(visual::frame_list_names()[0] == "frames"@);
    lemma_frames_read_back(frames);
}

/// The frames of a range follow each other by one step, from its start on, while they
/// lie within it (but for a millisecond) and there is room.
pub proof fn frames_follow_by_their_step(at: int, step: int, end: int, room: nat, k: int)
    requires
        0 <= k,
        0 <= at,
        0 <= step * k,
        at + step * k < 1_000_000_000_000_000,
        step > 0,
    ensures
        ({
            let f = frame_times(at, step, end, room);
            &&& f.len() <= room
            &&& k < f.len() ==> -500 <= f[k] - (at + step * k) <= 500 && at + step * k <= end
                + 1_000
            &&& k < room && at + step * k <= end + 1_000 ==> k < f.len()
        }),
    decreases k, room,
{
    let f = frame_times(at, step, end, room);
    lemma_frame_times(at, step, end, room);
    lemma_frame_room(at, step, end, room);
    if k == 0 {
        assert(step * k == 0) by (nonlinear_arith)
            requires
                k == 0,
        ;
    } else {
        assert(step * k == step + step * (k - 1)) by (nonlinear_arith);
        assert(step * (k - 1) >= 0) by (nonlinear_arith)
            requires
                step > 0,
                k > 0,
        ;
        if room > 0 && at <= end + 1_000 {
            let rest = frame_times(at + step, step, end, (room - 1) as nat);
            frames_follow_by_their_step(at + step, step, end, (room - 1) as nat, k - 1);
            if k < f.len() {
                assert(f[k] == rest[k - 1]);
            }
        }
    }
}

proof fn lemma_frame_room(at: int, step: int, end: int, room: nat)
    ensures
        frame_times(at, step, end, room).len() <= room,
    decreases room,
{
    if room > 0 && at <= end + 1_000 {
        lemma_frame_room(at + step, step, end, (room - 1) as nat);
    }
}

/// A file is sampled from where credits start at the earliest, but no more than an
/// hour before its end; without settings every half minute, up to 120 frames, in the
/// last two fifths. A file of five minutes or less is not sampled.
pub proof fn late_parts_are_sampled(duration: int, fraction: int, provider_settings: Option<Json>)
    requires
        0 <= duration < 900_000_000_000_000,
        0 <= fraction <= 1_000_000,
    ensures
        ({
            let from = sampled_from(duration, fraction);
            &&& from >= duration - 3_600_000_000
            &&& from * 1_000_000 + 1_000_000 > duration * fraction
            &&& from == duration - 3_600_000_000 || from * 1_000_000 <= duration * fraction
        }),
        step_of(None) == 30_000_000,
        most_frames_of(None) == 120,
        duration <= 300_000_000 ==> frame_plan_of(duration, provider_settings).len() == 0,
        duration > 300_000_000 ==> {
            let plan = frame_plan_of(duration, None);
            let from = sampled_from(duration, 600_000);
            &&& plan.len() == 1
            &&& plan[0].step == 30_000_000
            &&& -500 <= plan[0].start - from <= 500
            &&& -500 <= plan[0].end - duration <= 500
            &&& plan[0].frames == frame_times(from, 30_000_000, duration, 120)
        },
{
    let part = duration * fraction / 1_000_000;
    assert(part * 1_000_000 <= duration * fraction < part * 1_000_000 + 1_000_000);
    visual::default_tuning();
    let early = duration * 600_000 / 1_000_000;
    assert(early * 1_000_000 <= duration * 600_000);
}

/// The dark part of a frame counts the pixels of a luma up to 48.
pub proof fn dark_pixels_are_counted(frame: Seq<u8>)
    ensures
        dark_count(frame) == frame.filter(|p: u8| p <= 48).len(),
    decreases frame.len(),
{
    reveal(Seq::filter);
    if frame.len() > 0 {
        dark_pixels_are_counted(frame.drop_last());
    }
}

/// An edge lies between two pixels whose luma differs by forty or more; the edges of
/// some pixels are those that have one to the pixel a given number of places on.
pub proof fn edges_are_counted(frame: Seq<u8>, at: int, gap: int, n: nat)
    ensures
        edges_from(frame, at, gap, n) == Seq::new(n, |i: int| at + i).filter(
            |i: int| frame[i] >= frame[i + gap] + 40 || frame[i + gap] >= frame[i] + 40,
        ).len(),
    decreases n,
{
    let sharp = |i: int| frame[i] >= frame[i + gap] + 40 || frame[i + gap] >= frame[i] + 40;
    let places = Seq::new(n, |i: int| at + i);
    reveal(Seq::filter);
    if n > 0 {
        let m = (n - 1) as nat;
        edges_are_counted(frame, at, gap, m);
        assert(places.drop_last() =~= Seq::new(m, |i: int| at + i));
        assert(places.last() == at + n - 1);
        assert(sharp(at + n - 1) == is_edge(frame[at + n - 1], frame[at + n - 1 + gap]));
        assert(places.filter(sharp).len() == places.drop_last().filter(sharp).len() + if sharp(
            places.last(),
        ) {
            1nat
        } else {
            0
        });
    } else {
        assert(places =~= Seq::empty());
    }
}

/// The edges of a frame are those between neighbours: in each row to the right, and in
/// each row but the last down.
pub proof fn edges_lie_between_neighbours(frame: Seq<u8>, width: nat, height: nat, row: nat)
    requires
        width > 1,
        row < height,
    ensures
        edges_in(frame, width, height, 0) == 0,
        edges_in(frame, width, height, row + 1) == edges_in(frame, width, height, row)
            + edges_from(frame, row as int * width, 1, (width - 1) as nat) + if row + 1 < height {
            edges_from(frame, row as int * width, width as int, width)
        } else {
            0
        },
        neighbours(width, height) == height * (width - 1) + width * (height - 1),
{
}

/// A part of a whole is given to the nearest millionth.
pub proof fn parts_are_near(n: int, whole: int)
    requires
        0 <= n <= whole,
        whole > 0,
    ensures
        0 <= part_of(n, whole) <= 1_000_000,
        -whole <= 2 * whole * part_of(n, whole) - 2 * n * 1_000_000 <= whole,
{
    let m = 2 * whole;
    let a = 2 * n * 1_000_000 + whole;
    let q = a / m;
    assert(m * q <= a < m * q + m) by (nonlinear_arith)
        requires
            m > 0,
            q == a / m,
    ;
    assert(q >= 0) by (nonlinear_arith)
        requires
            m > 0,
            a >= 0,
            q == a / m,
    ;
    assert(q <= 1_000_000) by (nonlinear_arith)
        requires
            m == 2 * whole,
            a == 2 * n * 1_000_000 + whole,
            0 <= n <= whole,
            whole > 0,
            m * q <= a,
    ;
    assert(m * q == 2 * whole * q) by (nonlinear_arith)
        requires
            m == 2 * whole,
    ;
}

/// What is kept of a frame of 160 by 90 pixels: its time, the part of its pixels that
/// is dark, the part of its neighbours with an edge between them, and a hash of its
/// pixels.
pub proof fn frames_are_kept_as_measured(time: i64, frame: Seq<u8>)
    requires
        frame.len() == 14_400,
        0 <= time,
    ensures
        ({
            let f = taken_frame(time, frame, 160, 90);
            let edges = edges_in(frame, 160, 90, 90) as int;
            &&& -500 <= f.time - time <= 500
            &&& -14_400 <= 28_800 * f.black_ratio - 2_000_000 * dark_count(frame) <= 14_400
            &&& -28_550 <= 57_100 * f.text_ratio - 2_000_000 * edges <= 28_550
            &&& text::has_prefix_seq(f.hash, "lvf1:"@)
        }),
{
    lemma_dark_count(frame);
    lemma_edges_in(frame, 160, 90, 90);
    parts_are_near(dark_count(frame) as int, 14_400);
    assert(neighbours(160, 90) == 28_550);
    let edges = edges_in(frame, 160, 90, 90) as int;
    lemma_all_neighbours(frame);
    parts_are_near(edges, 28_550);
    let f = taken_frame(time, frame, 160, 90);
    assert(f.hash.take("lvf1:"@.len() as int) =~= "lvf1:"@);
}

proof fn lemma_all_neighbours(frame: Seq<u8>)
    ensures
        edges_in(frame, 160, 90, 90) <= 28_550,
{
    lemma_edges_in(frame, 160, 90, 90);
}

/// The bytes of a range hold its frames one after the other, each of 14400 bytes; there
/// are as many as there are whole ones and times, each at its time.
pub proof fn ranges_hold_their_frames(raw: Seq<u8>, times: Seq<i64>, k: int)
    ensures
        frames_in(raw, times).len() <= times.len(),
        frames_in(raw, times).len() * 14_400 <= raw.len(),
        frames_in(raw, times).len() == times.len() || raw.len() < frames_in(raw, times).len()
            * 14_400 + 14_400,
        0 <= k < frames_in(raw, times).len() ==> frames_in(raw, times)[k] == taken_frame(
            times[k],
            raw.subrange(14_400 * k, 14_400 * k + 14_400),
            160,
            90,
        ),
{
}

/// Why a file is not sampled, by the first that holds: it is not playable, it cannot
/// be opened or probed, it has no video, its length is not known, or it is no longer
/// than five minutes.
pub proof fn files_that_are_not_sampled(file: FingerprintMediaFile, probe: Option<FileProbe>)
    ensures
        ({
            let skip = frame_file_skip(file, probe);
            &&& file.scan_state@ != "ok"@ ==> skip == Some("media_file_not_playable"@)
            &&& file.scan_state@ == "ok"@ ==> match probe->0 {
                FileProbe::Unavailable(e) => skip == Some("file_unavailable:"@ + e@),
                FileProbe::Failed(_, e) => skip == Some("ffprobe_failed:"@ + e@),
                FileProbe::TimedOut(_) => skip == Some("ffprobe_timeout"@),
                FileProbe::Probed(_, m) => {
                    let seconds = extraction::known_seconds(
                        m.duration_seconds,
                        file.duration_seconds,
                    );
                    &&& !has_video(m) ==> skip == Some("no_video_stream"@)
                    &&& has_video(m) && seconds is None ==> skip == Some("unknown_duration"@)
                    &&& has_video(m) && seconds is Some && seconds->0 <= 300 ==> skip == Some(
                        "duration_too_short"@,
                    )
                    &&& skip is None <==> has_video(m) && seconds is Some && seconds->0 > 300
                },
            }
        }),
{
}

/// The sampling of a file ends with its frames kept and counted; without a frame, and
/// after an error, it is skipped with the reason; a shutdown is passed on as it is.
pub proof fn sampling_ends(
    summary: LocalVisualFrameHashSummary,
    duration_seconds: i64,
    plan: &Vec<LocalVisualFrameHashRange>,
    outcome: Result<Vec<LocalVisualFrameHashOutputFrame>, String>,
    r: Result<(LocalVisualFrameHashSummary, Option<JsonValue>), SegmentError>,
)
    requires
        call_ensures(finish_frame_hash, (summary, duration_seconds, plan, outcome), r),
    ensures
        match outcome {
            Ok(f) => r is Ok && ({
                let (s, kept) = r->Ok_0;
                &&& f@.len() > 0 ==> kept is Some && kept->0@ == frames_json(
                    duration_seconds,
                    frame_ranges(plan@),
                    taken_frames(f@),
                ) && (f@.len() <= usize::MAX ==> s.frames_extracted == f@.len()) && s.status
                    == summary.status
                &&& f@.len() == 0 ==> kept is None && s.status@ == "skipped"@
                    && s.frames_extracted == 0
            }),
            Err(m) => {
                &&& text::contains_seq(m@, "interrupted by shutdown"@) ==> r is Err
                    && r->Err_0.message@ == m@
                &&& !text::contains_seq(m@, "interrupted by shutdown"@) ==> r is Ok && ({
                    let (s, kept) = r->Ok_0;
                    kept is None && s.status@ == "skipped"@ && s.reason->0@ == "ffmpeg_failed:"@
                        + m@
                })
            },
        },
{
}

/// An extraction is refused just where it has no frame and some range of it failed.
pub proof fn failed_extractions_are_refused(
    frames: usize,
    failed_ranges: usize,
    r: Result<(), SegmentError>,
)
    requires
        call_ensures(check_frame_extraction, (frames, failed_ranges), r),
    ensures
        r is Ok <==> frames > 0 || failed_ranges == 0,
{
}

/// What a sampling reports: that it was skipped and why, or that it is well; the size of
/// its frames and its version.
pub proof fn samplings_are_reported(
    r: FrameHashPlan,
    media_file_id: Seq<char>,
    provider_settings: Option<Json>,
    file: FingerprintMediaFile,
    probe: Option<FileProbe>,
)
    requires
        plans_frames(r, media_file_id, provider_settings, file, probe),
    ensures
        r.summary.media_file_id@ == media_file_id,
        r.summary.frame_width == 160,
        r.summary.frame_height == 90,
        r.summary.fingerprint_version@ == "local-visual-frame-hash-v1"@,
        r.summary.frames_extracted == 0,
        r.summary.reason is Some ==> r.summary.status@ == "skipped"@ && r.ranges@.len() == 0,
        r.summary.reason is None ==> r.summary.status@ == "ok"@ && r.ranges@.len() == 1,
        frame_file_skip(file, probe) is Some ==> r.summary.reason is Some && r.summary.reason->0@
            == frame_file_skip(file, probe)->0,
        r.keeps_probe <==> frame_file_skip(file, probe) == Some("no_video_stream"@),
        frame_file_skip(file, probe) is None && r.summary.reason is Some ==> r.summary.reason->0@
            == "no_video_frame_hash_samples"@,
{
    let plan = frame_ranges(r.ranges@);
    assert(plan.len() == r.ranges@.len());
}

/// What is kept of a range and of a frame.
pub proof fn ranges_and_frames_are_kept(r: FrameRange, f: TakenFrame)
    ensures
        ({
            let seconds = |n: i64| Json::Number(JsonNumber::Fraction(n));
            &&& json::json_get(range_json(r), "start_seconds"@) == Some(seconds(r.start))
            &&& json::json_get(range_json(r), "end_seconds"@) == Some(seconds(r.end))
            &&& json::json_get(range_json(r), "step_seconds"@) == Some(seconds(r.step))
            &&& json::json_get(range_json(r), "frames_planned"@) == Some(
                Json::Number(JsonNumber::Unsigned(r.frames.len() as u64)),
            )
            &&& json::json_get(frame_json(f), "time_seconds"@) == Some(seconds(f.time))
            &&& json::json_get(frame_json(f), "black_ratio"@) == Some(seconds(f.black_ratio))
            &&& json::json_get(frame_json(f), "text_ratio"@) == Some(seconds(f.text_ratio))
            &&& json::json_get(frame_json(f), "hash"@) == Some(Json::Text(f.hash))
        }),
{
    lemma_kept_names_differ();
    json::lemma_lookup_at(range_json(r)->Object_0, "end_seconds"@, 0);
    json::lemma_lookup_at(range_json(r)->Object_0, "frames_planned"@, 1);
    json::lemma_lookup_at(range_json(r)->Object_0, "start_seconds"@, 2);
    json::lemma_lookup_at(range_json(r)->Object_0, "step_seconds"@, 3);
    json::lemma_lookup_at(frame_json(f)->Object_0, "black_ratio"@, 0);
    json::lemma_lookup_at(frame_json(f)->Object_0, "hash"@, 1);
    json::lemma_lookup_at(frame_json(f)->Object_0, "text_ratio"@, 2);
    json::lemma_lookup_at(frame_json(f)->Object_0, "time_seconds"@, 3);
}

proof fn lemma_kept_names_differ()
    ensures
        "end_seconds"@ != "frames_planned"@,
        "end_seconds"@ != "start_seconds"@,
        "end_seconds"@ != "step_seconds"@,
        "end_seconds"@ != "black_ratio"@,
        "end_seconds"@ != "hash"@,
        "end_seconds"@ != "text_ratio"@,
        "end_seconds"@ != "time_seconds"@,
        "frames_planned"@ != "start_seconds"@,
        "frames_planned"@ != "step_seconds"@,
        "frames_planned"@ != "black_ratio"@,
        "frames_planned"@ != "hash"@,
        "frames_planned"@ != "text_ratio"@,
        "frames_planned"@ != "time_seconds"@,
        "start_seconds"@ != "step_seconds"@,
        "start_seconds"@ != "black_ratio"@,
        "start_seconds"@ != "hash"@,
        "start_seconds"@ != "text_ratio"@,
        "start_seconds"@ != "time_seconds"@,
        "step_seconds"@ != "black_ratio"@,
        "step_seconds"@ != "hash"@,
        "step_seconds"@ != "text_ratio"@,
        "step_seconds"@ != "time_seconds"@,
        "black_ratio"@ != "hash"@,
        "black_ratio"@ != "text_ratio"@,
        "black_ratio"@ != "time_seconds"@,
        "hash"@ != "text_ratio"@,
        "hash"@ != "time_seconds"@,
        "text_ratio"@ != "time_seconds"@,
{
    reveal_strlit("end_seconds");
    reveal_strlit("frames_planned");
    reveal_strlit("start_seconds");
    reveal_strlit("step_seconds");
    reveal_strlit("black_ratio");
    reveal_strlit("hash");
    reveal_strlit("text_ratio");
    reveal_strlit("time_seconds");
    assert("end_seconds"@.len() == 11);
    assert("frames_planned"@.len() == 14);
    assert("start_seconds"@.len() == 13);
    assert("step_seconds"@.len() == 12);
    assert("black_ratio"@.len() == 11);
    assert("hash"@.len() == 4);
    assert("text_ratio"@.len() == 10);
    assert("time_seconds"@.len() == 12);
    assert("end_seconds"@[0] == 'e');
    assert("step_seconds"@[0] == 's');
    assert("black_ratio"@[0] == 'b');
    assert("time_seconds"@[0] == 't');
}

/// What is kept of the frames of a file tells how they were taken.
pub proof fn samplings_are_kept(
    duration_seconds: i64,
    plan: Seq<FrameRange>,
    frames: Seq<TakenFrame>,
)
    ensures
        ({
            let kept = frames_json(duration_seconds, plan, frames);
            &&& json::json_get(kept, "detector"@) == Some(Json::Text("local_visual_recurring"@))
            &&& json::json_get(kept, "duration_seconds"@) == Some(
                settings::whole_json(duration_seconds),
            )
            &&& json::json_get(kept, "frame_height"@) == Some(
                Json::Number(JsonNumber::Unsigned(90)),
            )
            &&& json::json_get(kept, "frame_width"@) == Some(
                Json::Number(JsonNumber::Unsigned(160)),
            )
            &&& json::json_get(kept, "version"@) == Some(
                Json::Text("local-visual-frame-hash-v1"@),
            )
            &&& json::json_get(kept, "extraction_ranges"@) is Some
            &&& json::json_get(kept, "extraction_ranges"@)->0->Array_0.len() == plan.len()
            &&& json::json_get(kept, "frames"@) is Some
            &&& json::json_get(kept, "frames"@)->0->Array_0.len() == frames.len()
        }),
{
    lemma_sampling_names_differ();
    let m = frames_json(duration_seconds, plan, frames)->Object_0;
    json::lemma_lookup_at(m, "detector"@, 0);
    json::lemma_lookup_at(m, "duration_seconds"@, 1);
    json::lemma_lookup_at(m, "extraction_ranges"@, 2);
    json::lemma_lookup_at(m, "frame_height"@, 3);
    json::lemma_lookup_at(m, "frame_width"@, 4);
    json::lemma_lookup_at(m, "frames"@, 5);
    json::lemma_lookup_at(m, "version"@, 6);
}

proof fn lemma_sampling_names_differ()
    ensures
        "detector"@ != "duration_seconds"@,
        "detector"@ != "extraction_ranges"@,
        "detector"@ != "frame_height"@,
        "detector"@ != "frame_width"@,
        "detector"@ != "frames"@,
        "detector"@ != "version"@,
        "duration_seconds"@ != "extraction_ranges"@,
        "duration_seconds"@ != "frame_height"@,
        "duration_seconds"@ != "frame_width"@,
        "duration_seconds"@ != "frames"@,
        "duration_seconds"@ != "version"@,
        "extraction_ranges"@ != "frame_height"@,
        "extraction_ranges"@ != "frame_width"@,
        "extraction_ranges"@ != "frames"@,
        "extraction_ranges"@ != "version"@,
        "frame_height"@ != "frame_width"@,
        "frame_height"@ != "frames"@,
        "frame_height"@ != "version"@,
        "frame_width"@ != "frames"@,
        "frame_width"@ != "version"@,
        "frames"@ != "version"@,
{
    reveal_strlit("detector");
    reveal_strlit("duration_seconds");
    reveal_strlit("extraction_ranges");
    reveal_strlit("frame_height");
    reveal_strlit("frame_width");
    reveal_strlit("frames");
    reveal_strlit("version");
    assert("detector"@.len() == 8);
    assert("duration_seconds"@.len() == 16);
    assert("extraction_ranges"@.len() == 17);
    assert("frame_height"@.len() == 12);
    assert("frame_width"@.len() == 11);
    assert("frames"@.len() == 6);
    assert("version"@.len() == 7);
}

} // verus!
