//! Fingerprinting the audio of a file: which windows are taken, and what of
//! them becomes the fingerprint.

use vstd::prelude::*;
use vstd::utf8::*;
use crate::consts;
use crate::error::{opt_text, refuse, SegmentError};
use crate::extraction::{self, probed_seconds, FileProbe, FingerprintMediaFile};
use crate::json::{self, saturate_i64, text_value, Json, JsonNumber, JsonValue};
use crate::order;
use crate::normalize::is_media_segment_worker_shutdown_interruption;
use crate::outside;
use crate::probe::{self, metadata_has_audio_stream, MediaMetadata};
use crate::quantity::round_millis;
use crate::runs::LocalAudioFingerprintSummary;
use crate::settings::{self, provider_settings_enabled, whole_value};
use crate::text;
use crate::visual;

verus! {

/// A window that is to be fingerprinted. Times are in microseconds.
#[derive(Debug, Clone, Copy, PartialEq, Eq, Structural)]
pub struct LocalAudioFingerprintWindowSpec {
    pub start: i64,
    pub end: i64,
}

/// A part of a file that is taken at once, and its windows.
#[derive(Debug, Clone)]
pub struct LocalAudioFingerprintRange {
    pub start: i64,
    pub end: i64,
    pub windows: Vec<LocalAudioFingerprintWindowSpec>,
}

/// The same, as a mathematical value.
#[verifier::ext_equal]
pub struct Range {
    pub start: i64,
    pub end: i64,
    pub windows: Seq<LocalAudioFingerprintWindowSpec>,
}

impl View for LocalAudioFingerprintRange {
    type V = Range;

    open spec fn view(&self) -> Range {
        Range { start: self.start, end: self.end, windows: self.windows@ }
    }
}

/// The windows of one length from a start on, one step after the other, while
/// they end within the range (but for a millisecond) and there is room.
pub open spec fn windows_from(start: int, length: int, end: int, room: nat) -> Seq<
    LocalAudioFingerprintWindowSpec,
>
    decreases room,
{
    if room == 0 || start + length > end + 1_000 {
        Seq::empty()
    } else {
        seq![
            LocalAudioFingerprintWindowSpec {
                start: visual::rounded(start),
                end: visual::rounded(start + length),
            },
        ] + windows_from(
            start + consts::LOCAL_AUDIO_FINGERPRINT_STEP_MICROS,
            length,
            end,
            (room - 1) as nat,
        )
    }
}

/// The lengths of the windows.
pub open spec fn window_lengths() -> Seq<int> {
    seq![60_000_000int, 90_000_000]
}

/// The windows of some lengths, one length after the other.
pub open spec fn windows_of_lengths(start: int, end: int, lengths: Seq<int>, max_windows: nat) -> Seq<
    LocalAudioFingerprintWindowSpec,
>
    decreases lengths.len(),
{
    if lengths.len() == 0 {
        Seq::empty()
    } else {
        let prior = windows_of_lengths(start, end, lengths.drop_last(), max_windows);
        if prior.len() >= max_windows || end - start < lengths.last() {
            prior
        } else {
            prior + windows_from(start, lengths.last(), end, (max_windows - prior.len()) as nat)
        }
    }
}

/// The order of windows: by their start, and by their end where they start
/// together.
pub open spec fn window_order() -> spec_fn(
    LocalAudioFingerprintWindowSpec,
    LocalAudioFingerprintWindowSpec,
) -> bool {
    |a: LocalAudioFingerprintWindowSpec, b: LocalAudioFingerprintWindowSpec|
        a.start < b.start || (a.start == b.start && a.end < b.end)
}

/// The windows without one that is the same as the one in front of it.
pub open spec fn without_repeats(s: Seq<LocalAudioFingerprintWindowSpec>) -> Seq<
    LocalAudioFingerprintWindowSpec,
>
    decreases s.len(),
{
    if s.len() == 0 {
        Seq::empty()
    } else {
        let rest = without_repeats(s.drop_last());
        if rest.len() > 0 && rest.last() == s.last() {
            rest
        } else {
            rest.push(s.last())
        }
    }
}

/// The windows of a range.
pub open spec fn range_windows(start: int, end: int, max_windows: nat) -> Seq<
    LocalAudioFingerprintWindowSpec,
> {
    without_repeats(
        order::arranged(
            windows_of_lengths(start, end, window_lengths(), max_windows),
            window_order(),
        ),
    )
}

proof fn lemma_windows_from_len(start: int, length: int, end: int, room: nat)
    ensures
        windows_from(start, length, end, room).len() <= room,
    decreases room,
{
    if room > 0 && start + length <= end + 1_000 {
        lemma_windows_from_len(
            start + consts::LOCAL_AUDIO_FINGERPRINT_STEP_MICROS,
            length,
            end,
            (room - 1) as nat,
        );
    }
}

/// Adds the windows of one length.
fn push_windows(
    out: &mut Vec<LocalAudioFingerprintWindowSpec>,
    start: i64,
    length: i64,
    end: i64,
    max_windows: usize,
)
    requires
        0 <= start <= end,
        0 <= length <= 1_000_000_000,
        old(out)@.len() < max_windows <= 1000,
    ensures
        final(out)@ == old(out)@ + windows_from(
            start as int,
            length as int,
            end as int,
            (max_windows - old(out)@.len()) as nat,
        ),
        final(out)@.len() <= max_windows,
{
    let ghost before = out@;
    let ghost all = windows_from(
        start as int,
        length as int,
        end as int,
        (max_windows - before.len()) as nat,
    );
    let mut at: i128 = start as i128;
    proof {
        assert(before + Seq::<LocalAudioFingerprintWindowSpec>::empty() =~= before);
        assert(out@ + all =~= before + all);
    }
    while out.len() < max_windows && at + length as i128 <= end as i128 + 1_000
        invariant
            0 <= at <= end + 15_001_000,
            0 <= length <= 1_000_000_000,
            out@.len() <= max_windows <= 1000,
            before + all == out@ + windows_from(
                at as int,
                length as int,
                end as int,
                (max_windows - out@.len()) as nat,
            ),
        decreases max_windows - out@.len(),
    {
        let ghost now = out@;
        let w = LocalAudioFingerprintWindowSpec {
            start: round_millis(saturate_i64(at)),
            end: round_millis(saturate_i64(at + length as i128)),
        };
        out.push(w);
        proof {
            let rest = windows_from(
                at + consts::LOCAL_AUDIO_FINGERPRINT_STEP_MICROS,
                length as int,
                end as int,
                (max_windows - out@.len()) as nat,
            );
            assert(now + (seq![w] + rest) =~= out@ + rest);
        }
        at = at + 15_000_000;
    }
    proof {
        assert(out@ + Seq::<LocalAudioFingerprintWindowSpec>::empty() =~= out@);
    }
}

fn place_window(
    out: &mut Vec<LocalAudioFingerprintWindowSpec>,
    c: LocalAudioFingerprintWindowSpec,
)
    ensures
        final(out)@ == order::place_by(old(out)@, c, window_order()),
{
    let n: usize = out.len();
    let mut p: usize = 0;
    while p < n && !(c.start < out[p].start || (c.start == out[p].start && c.end < out[p].end))
        invariant
            p <= n == out@.len(),
            forall|i: int| 0 <= i < p ==> !window_order()(c, #[trigger] out@[i]),
        decreases n - p,
    {
        p += 1;
    }
    proof {
        order::lemma_place_at(out@, c, window_order(), p as int);
    }
    out.insert(p, c);
}

fn sort_windows(v: &Vec<LocalAudioFingerprintWindowSpec>) -> (r: Vec<
    LocalAudioFingerprintWindowSpec,
>)
    ensures
        r@ == order::arranged(v@, window_order()),
{
    let mut out: Vec<LocalAudioFingerprintWindowSpec> = Vec::new();
    let mut i: usize = 0;
    proof {
        assert(v@.take(0) =~= Seq::empty());
    }
    while i < v.len()
        invariant
            i <= v@.len(),
            out@ == order::arranged(v@.take(i as int), window_order()),
        decreases v@.len() - i,
    {
        proof {
            assert(v@.take(i + 1).drop_last() =~= v@.take(i as int));
        }
        place_window(&mut out, v[i]);
        i += 1;
    }
    proof {
        assert(v@.take(v@.len() as int) =~= v@);
    }
    out
}

fn drop_repeats(v: &Vec<LocalAudioFingerprintWindowSpec>) -> (r: Vec<
    LocalAudioFingerprintWindowSpec,
>)
    ensures
        r@ == without_repeats(v@),
{
    let mut out: Vec<LocalAudioFingerprintWindowSpec> = Vec::new();
    let mut i: usize = 0;
    proof {
        assert(v@.take(0) =~= Seq::empty());
    }
    while i < v.len()
        invariant
            i <= v@.len(),
            out@ == without_repeats(v@.take(i as int)),
        decreases v@.len() - i,
    {
        proof {
            assert(v@.take(i + 1).drop_last() =~= v@.take(i as int));
        }
        let n: usize = out.len();
        if !(n > 0 && out[n - 1] == v[i]) {
            out.push(v[i]);
        }
        i += 1;
    }
    proof {
        assert(v@.take(v@.len() as int) =~= v@);
    }
    out
}

/// The windows of a range.
pub fn local_audio_fingerprint_window_specs(start: i64, end: i64, max_windows: usize) -> (r: Vec<
    LocalAudioFingerprintWindowSpec,
>)
    requires
        0 <= start <= end,
        max_windows <= 1000,
    ensures
        r@ == range_windows(start as int, end as int, max_windows as nat),
{
    let mut all: Vec<LocalAudioFingerprintWindowSpec> = Vec::new();
    let ghost lengths = window_lengths();
    proof {
        reveal_with_fuel(windows_of_lengths, 3);
        assert(lengths.drop_last() =~= seq![60_000_000int]);
        assert(lengths.drop_last().drop_last() =~= Seq::empty());
    }
    let ghost first = windows_of_lengths(
        start as int,
        end as int,
        lengths.drop_last(),
        max_windows as nat,
    );
    if max_windows > 0 && end - start >= 60_000_000 {
        push_windows(&mut all, start, 60_000_000, end, max_windows);
    }
    proof {
        assert(all@ =~= first);
    }
    if all.len() < max_windows && end - start >= 90_000_000 {
        push_windows(&mut all, start, 90_000_000, end, max_windows);
    }
    proof {
        assert(all@ =~= windows_of_lengths(
            start as int,
            end as int,
            lengths,
            max_windows as nat,
        ));
    }
    let sorted = sort_windows(&all);
    drop_repeats(&sorted)
}

/// Where the part of a file that can hold an intro ends.
pub open spec fn early_end(duration: int) -> int {
    let part = duration * consts::EARLY_WINDOW_FRACTION / 1_000_000;
    if part < consts::LOCAL_AUDIO_FINGERPRINT_MAX_RANGE_MICROS {
        part
    } else {
        consts::LOCAL_AUDIO_FINGERPRINT_MAX_RANGE_MICROS as int
    }
}

/// Where the part of a file that can hold an outro starts.
pub open spec fn late_start(duration: int) -> int {
    let part = duration * consts::LATE_WINDOW_FRACTION / 1_000_000;
    let last = duration - consts::LOCAL_AUDIO_FINGERPRINT_MAX_RANGE_MICROS;
    if part > last {
        part
    } else {
        last
    }
}

/// The ranges of a file: the early part, then the late part with the room that
/// is left; a range without a window is left out.
pub open spec fn plan_of(duration: int) -> Seq<Range> {
    if duration <= consts::LOCAL_AUDIO_FINGERPRINT_MIN_DURATION_MICROS {
        Seq::empty()
    } else {
        let most = consts::LOCAL_AUDIO_FINGERPRINT_MAX_WINDOWS_PER_FILE as nat;
        let early = range_windows(0, early_end(duration), most);
        let a = if early.len() > 0 {
            seq![Range { start: 0, end: early_end(duration) as i64, windows: early }]
        } else {
            Seq::empty()
        };
        let left = (most - early.len()) as nat;
        let late = range_windows(late_start(duration), duration, left);
        if early.len() < most && late.len() > 0 {
            a.push(
                Range {
                    start: late_start(duration) as i64,
                    end: duration as i64,
                    windows: late,
                },
            )
        } else {
            a
        }
    }
}

/// Some ranges, as mathematical values.
pub open spec fn ranges_of(v: Seq<LocalAudioFingerprintRange>) -> Seq<Range> {
    v.map_values(|r: LocalAudioFingerprintRange| r@)
}

proof fn lemma_without_repeats(s: Seq<LocalAudioFingerprintWindowSpec>)
    ensures
        without_repeats(s).len() <= s.len(),
        forall|i: int| 0 <= i < without_repeats(s).len() ==> s.contains(
            #[trigger] without_repeats(s)[i],
        ),
    decreases s.len(),
{
    if s.len() > 0 {
        let rest = s.drop_last();
        lemma_without_repeats(rest);
        assert forall|i: int| 0 <= i < without_repeats(s).len() implies s.contains(
            #[trigger] without_repeats(s)[i],
        ) by {
            let x = without_repeats(s)[i];
            if i < without_repeats(rest).len() {
                assert(rest.contains(without_repeats(rest)[i]));
                let k = choose|k: int| 0 <= k < rest.len() && rest[k] == x;
                assert(s[k] == x);
            } else {
                assert(s[s.len() - 1] == x);
            }
        }
    }
}

proof fn lemma_lengths_len(start: int, end: int, lengths: Seq<int>, max_windows: nat)
    ensures
        windows_of_lengths(start, end, lengths, max_windows).len() <= max_windows,
    decreases lengths.len(),
{
    if lengths.len() > 0 {
        lemma_lengths_len(start, end, lengths.drop_last(), max_windows);
        let prior = windows_of_lengths(start, end, lengths.drop_last(), max_windows);
        if prior.len() < max_windows {
            lemma_windows_from_len(
                start,
                lengths.last(),
                end,
                (max_windows - prior.len()) as nat,
            );
        }
    }
}

/// A range has no more windows than there is room for.
pub proof fn range_keeps_to_its_room(start: int, end: int, max_windows: nat)
    ensures
        range_windows(start, end, max_windows).len() <= max_windows,
{
    let all = windows_of_lengths(start, end, window_lengths(), max_windows);
    lemma_lengths_len(start, end, window_lengths(), max_windows);
    order::lemma_arranged_permutes(all, window_order());
    lemma_without_repeats(order::arranged(all, window_order()));
}

/// The ranges of a file, with their windows.
pub fn local_audio_fingerprint_plan(duration: i64) -> (r: Vec<LocalAudioFingerprintRange>)
    ensures
        ranges_of(r@) == plan_of(duration as int),
{
    let mut ranges: Vec<LocalAudioFingerprintRange> = Vec::new();
    proof {
        assert(ranges_of(ranges@) =~= Seq::empty());
    }
    if duration <= consts::LOCAL_AUDIO_FINGERPRINT_MIN_DURATION_MICROS {
        return ranges;
    }
    let most: usize = consts::LOCAL_AUDIO_FINGERPRINT_MAX_WINDOWS_PER_FILE;
    let early_part: i64 = (duration as i128 * 350_000i128 / 1_000_000i128) as i64;
    let early: i64 = if early_part < consts::LOCAL_AUDIO_FINGERPRINT_MAX_RANGE_MICROS {
        early_part
    } else {
        consts::LOCAL_AUDIO_FINGERPRINT_MAX_RANGE_MICROS
    };
    let late_part: i64 = (duration as i128 * 500_000i128 / 1_000_000i128) as i64;
    let last: i64 = duration - consts::LOCAL_AUDIO_FINGERPRINT_MAX_RANGE_MICROS;
    let late: i64 = if late_part > last {
        late_part
    } else {
        last
    };
    let early_windows = local_audio_fingerprint_window_specs(0, early, most);
    proof {
        range_keeps_to_its_room(0, early as int, most as nat);
    }
    let used: usize = early_windows.len();
    if used > 0 {
        let range = LocalAudioFingerprintRange { start: 0, end: early, windows: early_windows };
        ranges.push(range);
        proof {
            assert(ranges_of(ranges@) =~= seq![range@]);
        }
    }
    if used < most {
        let ghost before = ranges_of(ranges@);
        let late_windows = local_audio_fingerprint_window_specs(late, duration, most - used);
        if late_windows.len() > 0 {
            let range = LocalAudioFingerprintRange {
                start: late,
                end: duration,
                windows: late_windows,
            };
            ranges.push(range);
            proof {
                assert(ranges_of(ranges@) =~= before.push(range@));
            }
        }
    }
    ranges
}

/// How many windows some ranges have.
pub open spec fn windows_planned(plan: Seq<Range>) -> nat
    decreases plan.len(),
{
    if plan.len() == 0 {
        0
    } else {
        windows_planned(plan.drop_last()) + plan.last().windows.len()
    }
}

/// A plan has no more windows than a file may have, and its ranges lie within
/// the file: one from its start, which is short, and one in its second half.
pub proof fn plan_is_bounded(duration: int)
    requires
        0 <= duration <= i64::MAX,
    ensures
        windows_planned(plan_of(duration))
            <= consts::LOCAL_AUDIO_FINGERPRINT_MAX_WINDOWS_PER_FILE,
        forall|i: int|
            0 <= i < plan_of(duration).len() ==> {
                let range = #[trigger] plan_of(duration)[i];
                &&& 0 <= range.start <= range.end <= duration
                &&& range.end - range.start <= consts::LOCAL_AUDIO_FINGERPRINT_MAX_RANGE_MICROS
                &&& range.windows.len() > 0
                &&& range.start == 0 || range.start * 2 >= duration - 1
            },
{
    let most = consts::LOCAL_AUDIO_FINGERPRINT_MAX_WINDOWS_PER_FILE as nat;
    let early = range_windows(0, early_end(duration), most);
    range_keeps_to_its_room(0, early_end(duration), most);
    let left = (most - early.len()) as nat;
    range_keeps_to_its_room(late_start(duration), duration, left);
    reveal_with_fuel(windows_planned, 3);
    let plan = plan_of(duration);
    if plan.len() == 2 {
        assert(plan.drop_last().len() == 1);
        assert(plan.drop_last().last() == plan[0]);
        assert(plan.drop_last().drop_last() =~= Seq::empty());
    } else if plan.len() == 1 {
        assert(plan.drop_last() =~= Seq::empty());
    }
}

/// The sample at a time, at the rate of the extraction; a time before the start
/// is the start.
pub open spec fn sample_at(micros: int) -> int {
    if micros < 0 {
        0
    } else {
        (micros * 8 + 500) / 1_000
    }
}

/// The bytes of a window within a range of samples of two bytes each.
pub open spec fn window_bytes(length: int, start: int, end: int) -> Option<(int, int)> {
    let from = sample_at(start) * 2;
    let even = length - length % 2;
    let to = if sample_at(end) * 2 < even {
        sample_at(end) * 2
    } else {
        even
    };
    if end <= start || sample_at(end) <= sample_at(start) || to <= from {
        None
    } else {
        Some((from, to))
    }
}

/// The bytes of a window within a range of samples. The times are relative to
/// the range.
pub fn pcm_window_bytes(length: usize, relative_start: i64, relative_end: i64) -> (r: Option<
    (usize, usize),
>)
    ensures
        match r {
            Some((from, to)) => window_bytes(
                length as int,
                relative_start as int,
                relative_end as int,
            ) == Some((from as int, to as int)) && from < to <= length,
            None => window_bytes(length as int, relative_start as int, relative_end as int) is None,
        },
{
    if relative_end <= relative_start {
        return None;
    }
    let start_sample: i128 = if relative_start < 0 {
        0
    } else {
        (relative_start as i128 * 8 + 500) / 1_000
    };
    let end_sample: i128 = if relative_end < 0 {
        0
    } else {
        (relative_end as i128 * 8 + 500) / 1_000
    };
    if end_sample <= start_sample {
        return None;
    }
    let even: i128 = length as i128 - (length % 2) as i128;
    let from: i128 = start_sample * 2;
    let to: i128 = if end_sample * 2 < even {
        end_sample * 2
    } else {
        even
    };
    if to <= from {
        return None;
    }
    Some((from as usize, to as usize))
}

/// The sample that two bytes stand for, the low one first.
pub open spec fn sample_of(low: u8, high: u8) -> int {
    let n = low + high * 256;
    if n >= 32_768 {
        n - 65_536
    } else {
        n
    }
}

/// The sample number `i` of some bytes.
pub open spec fn pcm_sample(pcm: Seq<u8>, i: int) -> int {
    sample_of(pcm[2 * i], pcm[2 * i + 1])
}

/// What is measured of some samples.
#[derive(Debug, Clone, Copy, PartialEq, Eq, Structural)]
pub struct LocalAudioFrameStats {
    pub sum_squares: u64,
    pub zero_crossings: u32,
    pub peak: u32,
}

/// The sum of the squares of `count` samples.
pub open spec fn square_sum(pcm: Seq<u8>, start: int, count: nat) -> int
    decreases count,
{
    if count == 0 {
        0
    } else {
        let x = pcm_sample(pcm, start + count - 1);
        square_sum(pcm, start, (count - 1) as nat) + x * x
    }
}

/// The largest distance of `count` samples from zero.
pub open spec fn peak_of(pcm: Seq<u8>, start: int, count: nat) -> int
    decreases count,
{
    if count == 0 {
        0
    } else {
        let x = pcm_sample(pcm, start + count - 1);
        let a = if x < 0 {
            -x
        } else {
            x
        };
        let rest = peak_of(pcm, start, (count - 1) as nat);
        if a > rest {
            a
        } else {
            rest
        }
    }
}

/// How often the sign changes within `count` samples.
pub open spec fn crossings_of(pcm: Seq<u8>, start: int, count: nat) -> int
    decreases count,
{
    if count <= 1 {
        0
    } else {
        let now = pcm_sample(pcm, start + count - 1);
        let before = pcm_sample(pcm, start + count - 2);
        crossings_of(pcm, start, (count - 1) as nat) + if (now >= 0) != (before >= 0) {
            1int
        } else {
            0
        }
    }
}

fn read_sample(low: u8, high: u8) -> (r: i64)
    ensures
        r == sample_of(low, high),
        -32_768 <= r <= 32_767,
{
    let n: i64 = low as i64 + high as i64 * 256;
    if n >= 32_768 {
        n - 65_536
    } else {
        n
    }
}

/// What is measured of `count` samples from `start` on.
pub fn local_audio_frame_stats(pcm: &Vec<u8>, start_sample: usize, sample_count: usize) -> (r:
    LocalAudioFrameStats)
    requires
        (start_sample + sample_count) * 2 <= pcm@.len(),
        sample_count <= 1_000_000,
    ensures
        r.sum_squares == square_sum(pcm@, start_sample as int, sample_count as nat),
        r.zero_crossings == crossings_of(pcm@, start_sample as int, sample_count as nat),
        r.peak == peak_of(pcm@, start_sample as int, sample_count as nat),
{
    let mut sum: u64 = 0;
    let mut crossings: u32 = 0;
    let mut peak: i64 = 0;
    let mut previous: i64 = 0;
    let mut i: usize = 0;
    let total: usize = pcm.len();
    while i < sample_count
        invariant
            i <= sample_count <= 1_000_000,
            (start_sample + sample_count) * 2 <= total == pcm@.len(),
            sum == square_sum(pcm@, start_sample as int, i as nat),
            sum <= i * 1_073_741_824,
            crossings == crossings_of(pcm@, start_sample as int, i as nat),
            crossings <= i,
            peak == peak_of(pcm@, start_sample as int, i as nat),
            0 <= peak <= 32_768,
            i > 0 ==> previous == pcm_sample(pcm@, start_sample + i - 1),
        decreases sample_count - i,
    {
        let at: usize = (start_sample + i) * 2;
        let sample: i64 = read_sample(pcm[at], pcm[at + 1]);
        proof {
            assert(sample == pcm_sample(pcm@, start_sample + i));
            assert(0 <= sample * sample <= 1_073_741_824) by (nonlinear_arith)
                requires
                    -32_768 <= sample <= 32_767,
            ;
        }
        let distance: i64 = if sample < 0 {
            -sample
        } else {
            sample
        };
        if distance > peak {
            peak = distance;
        }
        sum = sum + (sample * sample) as u64;
        if i > 0 && (sample >= 0) != (previous >= 0) {
            crossings = crossings + 1;
        }
        previous = sample;
        i += 1;
    }
    LocalAudioFrameStats { sum_squares: sum, zero_crossings: crossings, peak: peak as u32 }
}

/// How many samples a frame has.
pub const FRAME_SAMPLES: usize = 4_000;

/// How many samples a window has at least.
pub const MIN_WINDOW_SAMPLES: usize = 160_000;

/// What is measured of the frame number `k` of a window.
pub open spec fn frame_of(pcm: Seq<u8>, k: int) -> LocalAudioFrameStats {
    LocalAudioFrameStats {
        sum_squares: square_sum(pcm, k * FRAME_SAMPLES, FRAME_SAMPLES as nat) as u64,
        zero_crossings: crossings_of(pcm, k * FRAME_SAMPLES, FRAME_SAMPLES as nat) as u32,
        peak: peak_of(pcm, k * FRAME_SAMPLES, FRAME_SAMPLES as nat) as u32,
    }
}

/// What is measured of each frame of a window; one that is too short has none.
pub open spec fn frames_of(pcm: Seq<u8>) -> Option<Seq<LocalAudioFrameStats>> {
    if pcm.len() / 2 >= MIN_WINDOW_SAMPLES {
        Some(Seq::new(pcm.len() / 2 / FRAME_SAMPLES as nat, |k: int| frame_of(pcm, k)))
    } else {
        None
    }
}

/// What is measured of each frame of a window; one that is too short has none.
pub fn local_audio_frames(pcm: &Vec<u8>) -> (r: Option<Vec<LocalAudioFrameStats>>)
    ensures
        match r {
            Some(v) => frames_of(pcm@) == Some(v@),
            None => frames_of(pcm@) is None,
        },
{
    let samples: usize = pcm.len() / 2;
    if samples < MIN_WINDOW_SAMPLES {
        return None;
    }
    let n: usize = samples / FRAME_SAMPLES;
    let mut out: Vec<LocalAudioFrameStats> = Vec::new();
    let mut k: usize = 0;
    while k < n
        invariant
            k <= n,
            n * 4_000 <= samples,
            samples == pcm@.len() / 2,
            out@.len() == k,
            forall|j: int| 0 <= j < k ==> #[trigger] out@[j] == frame_of(pcm@, j),
        decreases n - k,
    {
        let stats = local_audio_frame_stats(pcm, k * 4_000, 4_000);
        out.push(stats);
        k += 1;
    }
    proof {
        assert(out@ =~= frames_of(pcm@)->0);
    }
    Some(out)
}

/// How often the sign changes within a frame, in 255 steps to the nearest.
pub open spec fn crossing_level(crossings: int) -> int {
    let level = (crossings * 510 + 4_000) / 8_000;
    if level > 255 {
        255
    } else {
        level
    }
}

/// How often the sign changes within a frame, in 255 steps to the nearest.
pub fn zero_crossing_level(stats: &LocalAudioFrameStats) -> (r: u8)
    ensures
        r == crossing_level(stats.zero_crossings as int),
{
    let level: u64 = (stats.zero_crossings as u64 * 510 + 4_000) / 8_000;
    if level > 255 {
        255
    } else {
        level as u8
    }
}

/// The four bytes of a number, the low one first.
pub open spec fn four_bytes(n: u32) -> Seq<u8> {
    seq![
        (n % 256) as u8,
        (n / 256 % 256) as u8,
        (n / 65_536 % 256) as u8,
        (n / 16_777_216) as u8,
    ]
}

/// Writes the four bytes of a number, the low one first.
pub fn push_four_bytes(out: &mut Vec<u8>, n: u32)
    ensures
        final(out)@ == old(out)@ + four_bytes(n),
{
    let ghost before = out@;
    out.push((n % 256) as u8);
    out.push((n / 256 % 256) as u8);
    out.push((n / 65_536 % 256) as u8);
    out.push((n / 16_777_216) as u8);
    proof {
        assert(out@ =~= before + four_bytes(n));
    }
}

/// The three levels of each frame: how loud it is against the average, how often
/// its sign changes, and its peak against the average.
pub open spec fn level_bytes(levels: Seq<(u8, u8)>, frames: Seq<LocalAudioFrameStats>) -> Seq<u8>
    decreases levels.len(),
{
    if levels.len() == 0 {
        Seq::empty()
    } else {
        level_bytes(levels.drop_last(), frames.drop_last()) + seq![
            levels.last().0,
            crossing_level(frames.last().zero_crossings as int) as u8,
            levels.last().1,
        ]
    }
}

/// What the fingerprint of a window is taken of: the version, the number of
/// frames and the levels of each.
pub open spec fn feature_bytes(levels: Seq<(u8, u8)>, frames: Seq<LocalAudioFrameStats>) -> Seq<u8> {
    encode_utf8(consts::LOCAL_AUDIO_FINGERPRINT_VERSION@) + four_bytes(frames.len() as u32)
        + level_bytes(levels, frames)
}

/// The fingerprint of a window, from the loudness and peak of each frame against
/// the average, and what was measured of it.
pub fn local_audio_feature_hash(
    levels: &Vec<(u8, u8)>,
    frames: &Vec<LocalAudioFrameStats>,
) -> (r: String)
    requires
        levels@.len() == frames@.len(),
    ensures
        r@ == "laf1:"@ + outside::blake3_hex_text(feature_bytes(levels@, frames@)),
{
    let mut bytes: Vec<u8> = consts::LOCAL_AUDIO_FINGERPRINT_VERSION.as_bytes_vec();
    let n: usize = frames.len();
    push_four_bytes(&mut bytes, #[verifier::truncate] (n as u32));
    let ghost head = bytes@;
    let mut i: usize = 0;
    proof {
        assert(levels@.take(0) =~= Seq::empty());
        assert(head + level_bytes(levels@.take(0), frames@.take(0)) =~= head);
    }
    while i < n
        invariant
            i <= n == frames@.len() == levels@.len(),
            bytes@ == head + level_bytes(levels@.take(i as int), frames@.take(i as int)),
        decreases n - i,
    {
        let ghost now = bytes@;
        let ghost rest = level_bytes(levels@.take(i as int), frames@.take(i as int));
        let crossing: u8 = zero_crossing_level(&frames[i]);
        bytes.push(levels[i].0);
        bytes.push(crossing);
        bytes.push(levels[i].1);
        proof {
            assert(levels@.take(i + 1).drop_last() =~= levels@.take(i as int));
            assert(frames@.take(i + 1).drop_last() =~= frames@.take(i as int));
            let three = seq![levels@[i as int].0, crossing, levels@[i as int].1];
            assert(bytes@ =~= now + three);
            assert(now + three =~= head + (rest + three));
        }
        i += 1;
    }
    proof {
        assert(levels@.take(n as int) =~= levels@);
        assert(frames@.take(n as int) =~= frames@);
    }
    let hex = outside::blake3_hex(&bytes);
    text::join2("laf1:", hex.as_str())
}

/// The fingerprint of a window, where it is long enough to have one. `levels` gives
/// the loudness and peak of each frame against the average.
pub open spec fn window_hash(
    pcm: Seq<u8>,
    levels: spec_fn(Seq<LocalAudioFrameStats>) -> Seq<(u8, u8)>,
) -> Option<Seq<char>> {
    match frames_of(pcm) {
        Some(frames) => Some(
            "laf1:"@ + outside::blake3_hex_text(feature_bytes(levels(frames), frames)),
        ),
        None => None,
    }
}

/// However the levels are taken, a window has a fingerprint just where it has
/// samples enough, every fingerprint begins alike, and windows that measure alike,
/// such as equal ones, have the same.
pub proof fn window_hashes_rest_on_their_samples(
    a: Seq<u8>,
    b: Seq<u8>,
    levels: spec_fn(Seq<LocalAudioFrameStats>) -> Seq<(u8, u8)>,
)
    ensures
        window_hash(a, levels) is Some <==> a.len() / 2 >= MIN_WINDOW_SAMPLES,
        window_hash(a, levels) is Some ==> text::has_prefix_seq(
            window_hash(a, levels)->0,
            "laf1:"@,
        ),
        frames_of(a) == frames_of(b) ==> window_hash(a, levels) == window_hash(b, levels),
        a == b ==> window_hash(a, levels) == window_hash(b, levels),
{
    if window_hash(a, levels) is Some {
        let h = window_hash(a, levels)->0;
        assert(h.take("laf1:"@.len() as int) =~= "laf1:"@);
    }
}

/// A window with its fingerprint. Times are in microseconds.
#[derive(Debug, Clone)]
pub struct LocalAudioFingerprintOutputWindow {
    pub start: i64,
    pub end: i64,
    pub hash: String,
}

/// What is kept of a window.
pub open spec fn window_json(w: LocalAudioFingerprintOutputWindow) -> Json {
    Json::Object(
        seq![
            ("end_seconds"@, visual::fraction_json(w.end)),
            ("hash"@, Json::Text(w.hash@)),
            ("start_seconds"@, visual::fraction_json(w.start)),
        ],
    )
}

/// What is kept of the windows of a file.
pub open spec fn fingerprint_json(
    duration_seconds: i64,
    windows: Seq<LocalAudioFingerprintOutputWindow>,
) -> Json {
    Json::Object(
        seq![
            ("channel_layout"@, Json::Text("mono"@)),
            ("detector"@, Json::Text("local_audio_recurring"@)),
            ("duration_seconds"@, settings::whole_json(duration_seconds)),
            ("sample_rate_hz"@, Json::Number(JsonNumber::Unsigned(8_000))),
            ("step_seconds"@, visual::fraction_json(15_000_000)),
            ("version"@, Json::Text(consts::LOCAL_AUDIO_FINGERPRINT_VERSION@)),
            (
                "window_lengths_seconds"@,
                Json::Array(
                    seq![visual::fraction_json(60_000_000), visual::fraction_json(90_000_000)],
                ),
            ),
            (
                "windows"@,
                Json::Array(
                    windows.map_values(|w: LocalAudioFingerprintOutputWindow| window_json(w)),
                ),
            ),
        ],
    )
}

fn windows_value(windows: &Vec<LocalAudioFingerprintOutputWindow>) -> (v: JsonValue)
    ensures
        v@ == Json::Array(
            windows@.map_values(|w: LocalAudioFingerprintOutputWindow| window_json(w)),
        ),
{
    let ghost all = windows@.map_values(|w: LocalAudioFingerprintOutputWindow| window_json(w));
    let mut out: Vec<JsonValue> = Vec::new();
    let mut i: usize = 0;
    while i < windows.len()
        invariant
            i <= windows@.len(),
            out@.len() == i,
            all == windows@.map_values(|w: LocalAudioFingerprintOutputWindow| window_json(w)),
            forall|j: int| 0 <= j < i ==> #[trigger] out@[j]@ == all[j],
        decreases windows@.len() - i,
    {
        let mut o: Vec<(String, JsonValue)> = Vec::new();
        o.push(
            ("end_seconds".to_owned(), JsonValue::Number(JsonNumber::Fraction(windows[i].end))),
        );
        o.push(("hash".to_owned(), text_value(windows[i].hash.as_str())));
        o.push(
            ("start_seconds".to_owned(), JsonValue::Number(JsonNumber::Fraction(windows[i].start))),
        );
        proof {
            json::lemma_view_object(o);
            assert(json::members_of(o@) =~= window_json(windows@[i as int])->Object_0);
        }
        out.push(JsonValue::Object(o));
        i += 1;
    }
    proof {
        assert forall|j: int| 0 <= j < all.len() implies #[trigger] all[j] == json::json_of(
            out@[j],
        ) by {
            assert(out@[j]@ == all[j]);
        }
        json::lemma_view_array(out, all);
    }
    JsonValue::Array(out)
}

/// What is kept of the windows of a file.
pub fn local_audio_fingerprint_payload(
    duration_seconds: i64,
    windows: &Vec<LocalAudioFingerprintOutputWindow>,
) -> (v: JsonValue)
    ensures
        v@ == fingerprint_json(duration_seconds, windows@),
{
    let mut lengths: Vec<JsonValue> = Vec::new();
    lengths.push(JsonValue::Number(JsonNumber::Fraction(60_000_000)));
    lengths.push(JsonValue::Number(JsonNumber::Fraction(90_000_000)));
    proof {
        json::lemma_view_array(
            lengths,
            seq![visual::fraction_json(60_000_000), visual::fraction_json(90_000_000)],
        );
    }
    let mut o: Vec<(String, JsonValue)> = Vec::new();
    o.push(("channel_layout".to_owned(), text_value("mono")));
    o.push(("detector".to_owned(), text_value("local_audio_recurring")));
    o.push(("duration_seconds".to_owned(), whole_value(duration_seconds)));
    o.push(("sample_rate_hz".to_owned(), JsonValue::Number(JsonNumber::Unsigned(8_000))));
    o.push(("step_seconds".to_owned(), JsonValue::Number(JsonNumber::Fraction(15_000_000))));
    o.push(("version".to_owned(), text_value(consts::LOCAL_AUDIO_FINGERPRINT_VERSION)));
    o.push(("window_lengths_seconds".to_owned(), JsonValue::Array(lengths)));
    o.push(("windows".to_owned(), windows_value(windows)));
    proof {
        json::lemma_view_object(o);
        assert(json::members_of(o@) =~= fingerprint_json(duration_seconds, windows@)->Object_0);
    }
    JsonValue::Object(o)
}

/// What a fingerprinting reports, but for its windows.
pub open spec fn audio_summary_is(
    r: LocalAudioFingerprintSummary,
    media_file_id: Seq<char>,
    reason: Option<Seq<char>>,
    size: Option<i64>,
    seconds: Option<i64>,
) -> bool {
    &&& r.media_file_id@ == media_file_id
    &&& r.fingerprint_version@ == consts::LOCAL_AUDIO_FINGERPRINT_VERSION@
    &&& r.status@ == if reason is Some {
        "skipped"@
    } else {
        "ok"@
    }
    &&& opt_text(r.reason) == reason
    &&& r.file_size_bytes == size
    &&& r.duration_seconds == seconds
}

fn new_audio_summary(
    media_file_id: &str,
    reason: Option<String>,
    size: Option<i64>,
    seconds: Option<i64>,
) -> (r: LocalAudioFingerprintSummary)
    ensures
        audio_summary_is(r, media_file_id@, opt_text(reason), size, seconds),
        r.windows_planned == 0,
        r.windows_fingerprinted == 0,
        r.extraction_ranges == 0,
{
    let status = if reason.is_some() {
        "skipped"
    } else {
        "ok"
    };
    LocalAudioFingerprintSummary {
        media_file_id: media_file_id.to_owned(),
        status: status.to_owned(),
        duration_seconds: seconds,
        file_size_bytes: size,
        windows_planned: 0,
        windows_fingerprinted: 0,
        extraction_ranges: 0,
        fingerprint_version: consts::LOCAL_AUDIO_FINGERPRINT_VERSION.to_owned(),
        reason,
    }
}

/// The report where the detector is switched off; there is none where it is on.
pub fn audio_fingerprint_switched_off(
    media_file_id: &str,
    provider_settings: Option<&JsonValue>,
) -> (r: Option<LocalAudioFingerprintSummary>)
    ensures
        r is Some <==> !settings::enabled_setting(json::opt_json(provider_settings), false),
        r is Some ==> audio_summary_is(
            r->0,
            media_file_id@,
            Some("local_audio_detector_disabled"@),
            None,
            None,
        ) && r->0.windows_planned == 0 && r->0.windows_fingerprinted == 0
            && r->0.extraction_ranges == 0,
{
    if provider_settings_enabled(provider_settings) {
        None
    } else {
        let reason = Some("local_audio_detector_disabled".to_owned());
        Some(new_audio_summary(media_file_id, reason, None, None))
    }
}

/// How the fingerprinting of a file goes on.
#[derive(Debug)]
pub struct AudioFingerprintPlan {
    /// The report so far; what is skipped goes no further.
    pub summary: LocalAudioFingerprintSummary,
    /// The ranges that are to be taken.
    pub ranges: Vec<LocalAudioFingerprintRange>,
    /// Whether what the probe says is kept though there is no fingerprint.
    pub keeps_probe: bool,
}

/// Why a file is not fingerprinted: it is not playable, cannot be opened or
/// probed, has no audio, is too short, or its length is not known.
pub open spec fn audio_file_skip(file: FingerprintMediaFile, probe: Option<FileProbe>) -> Option<
    Seq<char>,
> {
    if file.scan_state@ != "ok"@ {
        Some("media_file_not_playable"@)
    } else {
        match probe->0 {
            FileProbe::Unavailable(e) => Some("file_unavailable:"@ + e@),
            FileProbe::Failed(_, e) => Some("ffprobe_failed:"@ + e@),
            FileProbe::TimedOut(_) => Some("ffprobe_timeout"@),
            FileProbe::Probed(_, m) => {
                let seconds = extraction::known_seconds(m.duration_seconds, file.duration_seconds);
                if !has_audio(m) {
                    Some("no_audio_stream"@)
                } else if seconds is None {
                    Some("unknown_duration"@)
                } else if seconds->0 <= 120 {
                    Some("duration_too_short"@)
                } else if windows_planned(plan_of(micros_of(seconds->0))) == 0 {
                    Some("no_fingerprint_windows"@)
                } else {
                    None
                }
            },
        }
    }
}

/// Whether a file has audio.
pub open spec fn has_audio(m: MediaMetadata) -> bool {
    probe::has_stream(m.streams@, "audio"@) || probe::codec_named(opt_text(m.audio_codec))
}

/// A number of seconds in microseconds.
pub open spec fn micros_of(seconds: i64) -> int {
    json::clamp_i64(seconds * 1_000_000) as int
}

/// The size of a file, as far as it is known.
pub open spec fn known_size(file: FingerprintMediaFile, probe: Option<FileProbe>) -> Option<i64> {
    if file.scan_state@ != "ok"@ {
        None
    } else {
        match probe->0 {
            FileProbe::Unavailable(_) => file.size_bytes,
            FileProbe::Failed(n, _) => Some(n),
            FileProbe::TimedOut(n) => Some(n),
            FileProbe::Probed(n, _) => Some(n),
        }
    }
}

/// The length of a file, as far as a probe found it.
pub open spec fn known_length(file: FingerprintMediaFile, probe: Option<FileProbe>) -> Option<i64> {
    if file.scan_state@ != "ok"@ {
        None
    } else {
        match probe->0 {
            FileProbe::Probed(_, m) => extraction::known_seconds(
                m.duration_seconds,
                file.duration_seconds,
            ),
            _ => None,
        }
    }
}

/// Whether a plan is the one of a file.
pub open spec fn plans_audio(
    r: AudioFingerprintPlan,
    media_file_id: Seq<char>,
    file: FingerprintMediaFile,
    probe: Option<FileProbe>,
) -> bool {
    let skip = audio_file_skip(file, probe);
    let length = known_length(file, probe);
    let late_skip = skip == Some("no_fingerprint_windows"@);
    let plan = if skip is None || late_skip {
        plan_of(micros_of(length->0))
    } else {
        Seq::empty()
    };
    &&& audio_summary_is(r.summary, media_file_id, skip, known_size(file, probe), length)
    &&& r.summary.extraction_ranges == plan.len()
    &&& r.summary.windows_planned == windows_planned(plan)
    &&& r.summary.windows_fingerprinted == 0
    &&& ranges_of(r.ranges@) == if skip is None {
        plan
    } else {
        Seq::empty()
    }
    &&& r.keeps_probe == (skip == Some("no_audio_stream"@))
}

fn stopped(summary: LocalAudioFingerprintSummary, keeps_probe: bool) -> (r: AudioFingerprintPlan)
    ensures
        r.summary == summary,
        ranges_of(r.ranges@) =~= Seq::empty(),
        r.keeps_probe == keeps_probe,
{
    AudioFingerprintPlan { summary, ranges: Vec::new(), keeps_probe }
}

fn count_windows(plan: &Vec<LocalAudioFingerprintRange>) -> (r: usize)
    requires
        windows_planned(ranges_of(plan@)) <= 1_000,
    ensures
        r == windows_planned(ranges_of(plan@)),
{
    let ghost all = ranges_of(plan@);
    let mut n: usize = 0;
    let mut i: usize = 0;
    proof {
        assert(all.take(0) =~= Seq::empty());
    }
    while i < plan.len()
        invariant
            i <= plan@.len(),
            all == ranges_of(plan@),
            windows_planned(all) <= 1_000,
            n == windows_planned(all.take(i as int)),
        decreases plan@.len() - i,
    {
        proof {
            assert(all.take(i + 1).drop_last() =~= all.take(i as int));
            assert(all.take(i + 1).last() == plan@[i as int]@);
            lemma_planned_grows(all, i + 1);
        }
        n = n + plan[i].windows.len();
        i += 1;
    }
    proof {
        assert(all.take(plan@.len() as int) =~= all);
    }
    n
}

proof fn lemma_planned_grows(plan: Seq<Range>, i: int)
    requires
        0 <= i <= plan.len(),
    ensures
        windows_planned(plan.take(i)) <= windows_planned(plan),
    decreases plan.len(),
{
    if i < plan.len() {
        lemma_planned_grows(plan.drop_last(), i);
        assert(plan.drop_last().take(i) =~= plan.take(i));
    } else {
        assert(plan.take(i) =~= plan);
    }
}

proof fn lemma_reasons_differ()
    ensures
        "no_fingerprint_windows"@ != "no_audio_stream"@,
        forall|e: Seq<char>| #[trigger] ("file_unavailable:"@ + e) != "no_fingerprint_windows"@,
        forall|e: Seq<char>| #[trigger] ("file_unavailable:"@ + e) != "no_audio_stream"@,
        forall|e: Seq<char>| #[trigger] ("ffprobe_failed:"@ + e) != "no_fingerprint_windows"@,
        forall|e: Seq<char>| #[trigger] ("ffprobe_failed:"@ + e) != "no_audio_stream"@,
        "ffprobe_timeout"@ != "no_fingerprint_windows"@,
        "ffprobe_timeout"@ != "no_audio_stream"@,
        "unknown_duration"@ != "no_fingerprint_windows"@,
        "unknown_duration"@ != "no_audio_stream"@,
        "duration_too_short"@ != "no_fingerprint_windows"@,
        "duration_too_short"@ != "no_audio_stream"@,
        "media_file_not_playable"@ != "no_fingerprint_windows"@,
        "media_file_not_playable"@ != "no_audio_stream"@,
{
    reveal_strlit("no_fingerprint_windows");
    reveal_strlit("no_audio_stream");
    reveal_strlit("file_unavailable:");
    reveal_strlit("ffprobe_failed:");
    reveal_strlit("ffprobe_timeout");
    reveal_strlit("unknown_duration");
    reveal_strlit("duration_too_short");
    reveal_strlit("media_file_not_playable");
    assert("no_fingerprint_windows"@[0] == 'n' && "no_audio_stream"@[0] == 'n');
    assert("no_fingerprint_windows"@.len() == 22 && "no_audio_stream"@.len() == 15);
    assert("ffprobe_timeout"@[0] == 'f' && "unknown_duration"@[0] == 'u');
    assert("duration_too_short"@[0] == 'd' && "media_file_not_playable"@[0] == 'm');
    assert forall|e: Seq<char>| #[trigger] ("file_unavailable:"@ + e) != "no_fingerprint_windows"@
        && ("file_unavailable:"@ + e) != "no_audio_stream"@ by {
        assert(("file_unavailable:"@ + e)[0] == 'f');
    }
    assert forall|e: Seq<char>| #[trigger] ("ffprobe_failed:"@ + e) != "no_fingerprint_windows"@
        && ("ffprobe_failed:"@ + e) != "no_audio_stream"@ by {
        assert(("ffprobe_failed:"@ + e)[0] == 'f');
    }
}

/// Plans the fingerprinting of a file that the detector is on for. A playable
/// file was opened and probed.
pub fn plan_audio_fingerprint(
    media_file_id: &str,
    file: &FingerprintMediaFile,
    probe: Option<&FileProbe>,
) -> (r: AudioFingerprintPlan)
    requires
        file.scan_state@ == "ok"@ ==> probe is Some,
    ensures
        plans_audio(
            r,
            media_file_id@,
            *file,
            match probe {
                Some(p) => Some(*p),
                None => None,
            },
        ),
{
    proof {
        lemma_reasons_differ();
        reveal_with_fuel(windows_planned, 1);
    }
    if !text::str_eq(file.scan_state.as_str(), "ok") {
        let reason = Some("media_file_not_playable".to_owned());
        return stopped(new_audio_summary(media_file_id, reason, None, None), false);
    }
    let probe: &FileProbe = match probe {
        Some(p) => p,
        None => {
            return stopped(new_audio_summary(media_file_id, None, None, None), false);
        },
    };
    match probe {
        FileProbe::Unavailable(e) => {
            let reason = Some(text::join2("file_unavailable:", e.as_str()));
            stopped(new_audio_summary(media_file_id, reason, file.size_bytes, None), false)
        },
        FileProbe::Failed(size, e) => {
            let reason = Some(text::join2("ffprobe_failed:", e.as_str()));
            stopped(new_audio_summary(media_file_id, reason, Some(*size), None), false)
        },
        FileProbe::TimedOut(size) => {
            let reason = Some("ffprobe_timeout".to_owned());
            stopped(new_audio_summary(media_file_id, reason, Some(*size), None), false)
        },
        FileProbe::Probed(size, metadata) => {
            let known = probed_seconds(metadata, file);
            if !metadata_has_audio_stream(metadata) {
                let reason = Some("no_audio_stream".to_owned());
                return stopped(
                    new_audio_summary(media_file_id, reason, Some(*size), known),
                    true,
                );
            }
            let seconds: i64 = match known {
                Some(n) => n,
                None => {
                    let reason = Some("unknown_duration".to_owned());
                    return stopped(
                        new_audio_summary(media_file_id, reason, Some(*size), None),
                        false,
                    );
                },
            };
            if seconds <= 120 {
                let reason = Some("duration_too_short".to_owned());
                return stopped(
                    new_audio_summary(media_file_id, reason, Some(*size), known),
                    false,
                );
            }
            let duration: i64 = saturate_i64(seconds as i128 * 1_000_000i128);
            let ranges = local_audio_fingerprint_plan(duration);
            proof {
                plan_is_bounded(duration as int);
            }
            let planned: usize = count_windows(&ranges);
            if planned == 0 {
                let reason = Some("no_fingerprint_windows".to_owned());
                let mut summary = new_audio_summary(media_file_id, reason, Some(*size), known);
                summary.extraction_ranges = ranges.len();
                return stopped(summary, false);
            }
            let mut summary = new_audio_summary(media_file_id, None, Some(*size), known);
            summary.extraction_ranges = ranges.len();
            summary.windows_planned = planned;
            AudioFingerprintPlan { summary, ranges, keeps_probe: false }
        },
    }
}

/// Refuses an extraction of which every range failed.
pub fn check_audio_extraction(windows: usize, failed_ranges: usize) -> (r: Result<(), SegmentError>)
    ensures
        r is Err <==> windows == 0 && failed_ranges > 0,
        r matches Err(e) ==> e.message@
            == "all local audio fingerprint extraction ranges failed"@,
{
    if windows == 0 && failed_ranges > 0 {
        Err(refuse("all local audio fingerprint extraction ranges failed"))
    } else {
        Ok(())
    }
}

/// Ends the fingerprinting of a file: with the report, and what is kept of its
/// windows where there are any. A shutdown is passed on.
pub fn finish_audio_fingerprint(
    summary: LocalAudioFingerprintSummary,
    duration_seconds: i64,
    outcome: Result<Vec<LocalAudioFingerprintOutputWindow>, String>,
) -> (r: Result<(LocalAudioFingerprintSummary, Option<JsonValue>), SegmentError>)
    ensures
        match outcome {
            Err(m) => if text::contains_seq(m@, "interrupted by shutdown"@) {
                r matches Err(e) && e.message@ == m@
            } else {
                r matches Ok((s, p)) && p is None && s == (LocalAudioFingerprintSummary {
                    status: s.status,
                    reason: s.reason,
                    ..summary
                }) && s.status@ == "skipped"@ && opt_text(s.reason) == Some(
                    "ffmpeg_failed:"@ + m@,
                )
            },
            Ok(w) => if w@.len() == 0 {
                r matches Ok((s, p)) && p is None && s == (LocalAudioFingerprintSummary {
                    status: s.status,
                    reason: s.reason,
                    windows_fingerprinted: 0,
                    ..summary
                }) && s.status@ == "skipped"@ && opt_text(s.reason) == Some(
                    "audio_fingerprint_extraction_empty"@,
                )
            } else {
                r matches Ok((s, p)) && json::opt_value(p) == Some(
                    fingerprint_json(duration_seconds, w@),
                ) && s == (LocalAudioFingerprintSummary {
                    windows_fingerprinted: w@.len() as usize,
                    ..summary
                })
            },
        },
{
    let mut summary = summary;
    match outcome {
        Err(message) => {
            if is_media_segment_worker_shutdown_interruption(message.as_str()) {
                return Err(refuse(message.as_str()));
            }
            summary.status = "skipped".to_owned();
            summary.reason = Some(text::join2("ffmpeg_failed:", message.as_str()));
            Ok((summary, None))
        },
        Ok(windows) => {
            summary.windows_fingerprinted = windows.len();
            if windows.len() == 0 {
                summary.status = "skipped".to_owned();
                summary.reason = Some("audio_fingerprint_extraction_empty".to_owned());
                return Ok((summary, None));
            }
            let payload = local_audio_fingerprint_payload(duration_seconds, &windows);
            Ok((summary, Some(payload)))
        },
    }
}

/// The windows of one length start fifteen seconds after each other, from the start
/// of the range on, each as long as the length, while they end within the range (but
/// for a millisecond) and there is room.
pub proof fn windows_follow_every_fifteen_seconds(
    start: int,
    length: int,
    end: int,
    room: nat,
    k: int,
)
    requires
        0 <= k,
        0 <= start,
        0 <= length,
        start + 15_000_000 * k + length < 1_000_000_000_000_000,
    ensures
        ({
            let w = windows_from(start, length, end, room);
            &&& w.len() <= room
            &&& k < w.len() ==> {
                &&& -500 <= w[k].start - (start + 15_000_000 * k) <= 500
                &&& -500 <= w[k].end - (start + 15_000_000 * k + length) <= 500
                &&& start + 15_000_000 * k + length <= end + 1_000
            }
            &&& k < room && start + 15_000_000 * k + length <= end + 1_000 ==> k < w.len()
        }),
    decreases k, room,
{
    let w = windows_from(start, length, end, room);
    lemma_window_room(start, length, end, room);
    if room > 0 && start + length <= end + 1_000 {
        let rest = windows_from(start + 15_000_000, length, end, (room - 1) as nat);
        if k > 0 {
            windows_follow_every_fifteen_seconds(
                start + 15_000_000,
                length,
                end,
                (room - 1) as nat,
                k - 1,
            );
            if k < w.len() {
                assert(w[k] == rest[k - 1]);
            }
        } else {
            assert(w.len() > 0);
        }
    }
}

proof fn lemma_window_room(start: int, length: int, end: int, room: nat)
    ensures
        windows_from(start, length, end, room).len() <= room,
    decreases room,
{
    if room > 0 && start + length <= end + 1_000 {
        lemma_window_room(
            start + consts::LOCAL_AUDIO_FINGERPRINT_STEP_MICROS,
            length,
            end,
            (room - 1) as nat,
        );
    }
}

proof fn lemma_without_repeats_contains(
    s: Seq<LocalAudioFingerprintWindowSpec>,
    w: LocalAudioFingerprintWindowSpec,
)
    ensures
        without_repeats(s).contains(w) <==> s.contains(w),
    decreases s.len(),
{
    if s.len() == 0 {
        assert(without_repeats(s) =~= s);
    } else {
        let rest = s.drop_last();
        lemma_without_repeats_contains(rest, w);
        let r = without_repeats(rest);
        let all = without_repeats(s);
        if s.contains(w) {
            let i = choose|i: int| 0 <= i < s.len() && s[i] == w;
            if i < rest.len() {
                assert(rest[i] == w);
                let q = choose|q: int| 0 <= q < r.len() && r[q] == w;
                assert(all[q] == w);
            } else {
                assert(all[all.len() - 1] == w);
            }
        }
        if all.contains(w) {
            let q = choose|q: int| 0 <= q < all.len() && all[q] == w;
            if q < r.len() {
                assert(r[q] == w);
                let i = choose|i: int| 0 <= i < rest.len() && rest[i] == w;
                assert(s[i] == w);
            } else {
                assert(s[s.len() - 1] == w);
            }
        }
    }
}

proof fn lemma_two_lengths(start: int, end: int, room: nat)
    ensures
        ({
            let short: Seq<LocalAudioFingerprintWindowSpec> = if room == 0 || end - start
                < 60_000_000 {
                Seq::empty()
            } else {
                windows_from(start, 60_000_000, end, room)
            };
            windows_of_lengths(start, end, window_lengths(), room) == if short.len() >= room || end
                - start < 90_000_000 {
                short
            } else {
                short + windows_from(start, 90_000_000, end, (room - short.len()) as nat)
            }
        }),
{
    let both = window_lengths();
    assert(both.drop_last() =~= seq![60_000_000int]);
    assert(both.drop_last().drop_last() =~= Seq::empty());
    assert(both.last() == 90_000_000);
    assert(both.drop_last().last() == 60_000_000);
    let none = windows_of_lengths(start, end, both.drop_last().drop_last(), room);
    assert(none =~= Seq::empty());
    let short: Seq<LocalAudioFingerprintWindowSpec> = if room == 0 || end - start < 60_000_000 {
        Seq::empty()
    } else {
        windows_from(start, 60_000_000, end, room)
    };
    assert(windows_of_lengths(start, end, both.drop_last(), room) =~= short) by {
        assert(none + windows_from(start, 60_000_000, end, (room - none.len()) as nat)
            =~= windows_from(start, 60_000_000, end, room));
    }
}

/// A range is covered by windows of a minute and of a minute and a half, fifteen
/// seconds apart: those of a minute as far as there is room, those of a minute and a
/// half as far as those leave room.
pub proof fn ranges_are_covered(start: int, end: int, room: nat, k: int) -> (r: (
    LocalAudioFingerprintWindowSpec,
    LocalAudioFingerprintWindowSpec,
))
    requires
        0 <= k < room,
        0 <= start <= end < 900_000_000_000_000,
        k < 1_000_000,
    ensures
        ({
            let w = range_windows(start, end, room);
            let at = start + 15_000_000 * k;
            let minutes = windows_from(start, 60_000_000, end, room).len();
            &&& at + 60_000_000 <= end ==> w.contains(r.0) && -500 <= r.0.start - at <= 500 && -500
                <= r.0.end - (at + 60_000_000) <= 500
            &&& at + 90_000_000 <= end && k + minutes < room ==> w.contains(r.1) && -500
                <= r.1.start - at <= 500 && -500 <= r.1.end - (at + 90_000_000) <= 500
        }),
{
    let all = windows_of_lengths(start, end, window_lengths(), room);
    lemma_two_lengths(start, end, room);
    let short = windows_from(start, 60_000_000, end, room);
    let left = (room - short.len()) as nat;
    let long = windows_from(start, 90_000_000, end, left);
    let at = start + 15_000_000 * k;
    windows_follow_every_fifteen_seconds(start, 60_000_000, end, room, k);
    let a = if at + 60_000_000 <= end {
        assert(all[k] == short[k]);
        assert(all.contains(short[k]));
        short[k]
    } else {
        LocalAudioFingerprintWindowSpec { start: 0, end: 0 }
    };
    let b = if at + 90_000_000 <= end && k + short.len() < room {
        windows_follow_every_fifteen_seconds(start, 90_000_000, end, left, k);
        assert(all[short.len() + k] == long[k]);
        assert(all.contains(long[k]));
        long[k]
    } else {
        LocalAudioFingerprintWindowSpec { start: 0, end: 0 }
    };
    order::lemma_arranged_contains(all, window_order(), a);
    order::lemma_arranged_contains(all, window_order(), b);
    lemma_without_repeats_contains(order::arranged(all, window_order()), a);
    lemma_without_repeats_contains(order::arranged(all, window_order()), b);
    (a, b)
}

/// Every window of a range lasts a minute or a minute and a half, and starts a whole
/// number of fifteen seconds behind the start of the range; it ends within it (but
/// for a millisecond and the rounding).
pub proof fn windows_lie_in_their_range(
    start: int,
    end: int,
    room: nat,
    w: LocalAudioFingerprintWindowSpec,
) -> (r: (int, int))
    requires
        0 <= start <= end < 900_000_000_000_000,
        range_windows(start, end, room).contains(w),
    ensures
        r.0 >= 0,
        r.1 == 60_000_000 || r.1 == 90_000_000,
        -500 <= w.start - (start + 15_000_000 * r.0) <= 500,
        -500 <= w.end - (start + 15_000_000 * r.0 + r.1) <= 500,
        start + 15_000_000 * r.0 + r.1 <= end + 1_000,
{
    let all = windows_of_lengths(start, end, window_lengths(), room);
    lemma_two_lengths(start, end, room);
    lemma_without_repeats_contains(order::arranged(all, window_order()), w);
    order::lemma_arranged_contains(all, window_order(), w);
    let i = choose|i: int| 0 <= i < all.len() && all[i] == w;
    let short: Seq<LocalAudioFingerprintWindowSpec> = if room == 0 || end - start < 60_000_000 {
        Seq::empty()
    } else {
        windows_from(start, 60_000_000, end, room)
    };
    if i < short.len() {
        assert(short[i] == w);
        lemma_window_near(start, 60_000_000, end, room, i);
        (i, 60_000_000)
    } else {
        let left = (room - short.len()) as nat;
        let k = i - short.len();
        assert(windows_from(start, 90_000_000, end, left)[k] == w);
        lemma_window_near(start, 90_000_000, end, left, k);
        (k, 90_000_000)
    }
}

proof fn lemma_window_near(start: int, length: int, end: int, room: nat, k: int)
    requires
        0 <= start,
        0 <= length <= 90_000_000,
        end < 900_000_000_000_000,
        0 <= k < windows_from(start, length, end, room).len(),
    ensures
        ({
            let w = windows_from(start, length, end, room)[k];
            &&& -500 <= w.start - (start + 15_000_000 * k) <= 500
            &&& -500 <= w.end - (start + 15_000_000 * k + length) <= 500
            &&& start + 15_000_000 * k + length <= end + 1_000
        }),
    decreases k,
{
    let w = windows_from(start, length, end, room);
    if k > 0 {
        let rest = windows_from(start + 15_000_000, length, end, (room - 1) as nat);
        assert(w[k] == rest[k - 1]);
        lemma_window_near(start + 15_000_000, length, end, (room - 1) as nat, k - 1);
    }
}

/// What is fingerprinted of a file of more than two minutes: from its start, 35
/// hundredths of it but no more than a quarter of an hour; and its second half, but no
/// more than its last quarter of an hour. A shorter file has no ranges.
pub proof fn intros_and_outros_are_planned(duration: int)
    requires
        0 <= duration < 900_000_000_000_000,
    ensures
        duration <= 120_000_000 ==> plan_of(duration).len() == 0,
        ({
            let early = early_end(duration);
            let late = late_start(duration);
            &&& early <= 900_000_000
            &&& 100 * early <= 35 * duration
            &&& early == 900_000_000 || 35 * duration < 100 * early + 100
            &&& late >= duration - 900_000_000
            &&& 2 * late + 2 > duration
            &&& late == duration - 900_000_000 || 2 * late <= duration
        }),
        forall|i: int|
            0 <= i < plan_of(duration).len() ==> {
                let r = #[trigger] plan_of(duration)[i];
                ||| r.start == 0 && r.end == early_end(duration) && r.windows == range_windows(
                    0,
                    early_end(duration),
                    160,
                )
                ||| r.start == late_start(duration) && r.end == duration
            },
        duration > 120_000_000 && range_windows(0, early_end(duration), 160).len() > 0 ==> plan_of(
            duration,
        ).len() > 0 && plan_of(duration)[0].start == 0,
{
}

/// The sample at a time lies within half a sample of it, at eight thousand samples a
/// second.
pub proof fn samples_lie_at_their_time(micros: int)
    ensures
        micros >= 0 ==> -500 <= sample_at(micros) * 1_000 - micros * 8 <= 500,
        micros < 0 ==> sample_at(micros) == 0,
{
}

/// The bytes of a window are whole samples, from the sample at its start up to the
/// one at its end or the last there is; a window that has none of them has none.
pub proof fn windows_have_their_samples(length: int, start: int, end: int)
    requires
        length >= 0,
    ensures
        match window_bytes(length, start, end) {
            Some((from, to)) => {
                &&& from == 2 * sample_at(start)
                &&& 0 <= from < to <= length
                &&& to % 2 == 0
                &&& to <= 2 * sample_at(end)
                &&& to == 2 * sample_at(end) || to >= length - 1
            },
            None => end <= start || sample_at(end) <= sample_at(start) || length < 2 * sample_at(
                start,
            ) + 2,
        },
{
}

/// A sample is the number of its two bytes, the low one first, as a signed one.
pub proof fn samples_are_signed(low: u8, high: u8)
    ensures
        -32_768 <= sample_of(low, high) <= 32_767,
        sample_of(low, high) == low + 256 * high || sample_of(low, high) == low + 256 * high
            - 65_536,
        high >= 128 <==> sample_of(low, high) < 0,
{
}

/// The peak of some samples is the greatest distance of any of them from zero.
pub proof fn peaks_are_reached(pcm: Seq<u8>, start: int, count: nat)
    ensures
        forall|i: int|
            0 <= i < count ==> {
                let x = #[trigger] pcm_sample(pcm, start + i);
                -peak_of(pcm, start, count) <= x <= peak_of(pcm, start, count)
            },
        count > 0 ==> exists|i: int|
            0 <= i < count && {
                let x = #[trigger] pcm_sample(pcm, start + i);
                x == peak_of(pcm, start, count) || -x == peak_of(pcm, start, count)
            },
        peak_of(pcm, start, count) >= 0,
    decreases count,
{
    if count > 0 {
        let n = (count - 1) as nat;
        peaks_are_reached(pcm, start, n);
        let x = pcm_sample(pcm, start + n);
        let p = peak_of(pcm, start, count);
        assert(start + count - 1 == start + n);
        assert forall|i: int| 0 <= i < count implies {
            let y = #[trigger] pcm_sample(pcm, start + i);
            -p <= y <= p
        } by {
            if i < n {
                let y = pcm_sample(pcm, start + i);
                assert(-peak_of(pcm, start, n) <= y <= peak_of(pcm, start, n));
            }
        }
        if x == p || -x == p {
            assert(pcm_sample(pcm, start + n) == x);
        } else {
            assert(p == peak_of(pcm, start, n));
            if n > 0 {
                let i = choose|i: int|
                    0 <= i < n && {
                        let y = #[trigger] pcm_sample(pcm, start + i);
                        y == peak_of(pcm, start, n) || -y == peak_of(pcm, start, n)
                    };
                assert(pcm_sample(pcm, start + i) == p || -pcm_sample(pcm, start + i) == p);
            }
        }
    }
}

/// What is measured of some samples and one more: its square is added, and one change
/// of sign where it is on the other side of zero than the sample before it.
pub proof fn measures_grow_by_sample(pcm: Seq<u8>, start: int, count: nat)
    ensures
        square_sum(pcm, start, 0) == 0,
        square_sum(pcm, start, count + 1) == square_sum(pcm, start, count) + pcm_sample(
            pcm,
            start + count,
        ) * pcm_sample(pcm, start + count),
        crossings_of(pcm, start, 1) == 0,
        count >= 1 ==> crossings_of(pcm, start, count + 1) == crossings_of(pcm, start, count) + if (
        pcm_sample(pcm, start + count) < 0) == (pcm_sample(pcm, start + count - 1) < 0) {
            0int
        } else {
            1
        },
        0 <= pcm_sample(pcm, start) ==> sample_of(pcm[2 * start], pcm[2 * start + 1]) >= 0,
{
    assert(start + (count + 1) - 1 == start + count);
    assert(start + (count + 1) - 2 == start + count - 1);
}

/// A window of at least twenty seconds of samples has a frame for each half second;
/// a shorter one has none.
pub proof fn windows_have_frames_of_half_a_second(pcm: Seq<u8>, k: int)
    ensures
        frames_of(pcm) is Some <==> pcm.len() >= 320_000,
        frames_of(pcm) is Some ==> frames_of(pcm)->0.len() == pcm.len() / 8_000,
        frames_of(pcm) is Some && 0 <= k < frames_of(pcm)->0.len() ==> frames_of(pcm)->0[k]
            == (LocalAudioFrameStats {
            sum_squares: square_sum(pcm, 4_000 * k, 4_000) as u64,
            zero_crossings: crossings_of(pcm, 4_000 * k, 4_000) as u32,
            peak: peak_of(pcm, 4_000 * k, 4_000) as u32,
        }),
{
    assert(pcm.len() / 2 / 4_000 == pcm.len() / 8_000);
}

/// The changes of sign of a frame of four thousand samples, in 255 steps to the
/// nearest.
pub proof fn crossing_levels_are_near(crossings: int)
    requires
        0 <= crossings <= 4_000,
    ensures
        0 <= crossing_level(crossings) <= 255,
        -2_000 <= crossing_level(crossings) * 4_000 - crossings * 255 <= 2_000,
{
}

/// The four bytes of a number give it back.
pub proof fn four_bytes_give_the_number_back(n: u32)
    ensures
        four_bytes(n).len() == 4,
        four_bytes(n)[0] + 256 * four_bytes(n)[1] + 65_536 * four_bytes(n)[2] + 16_777_216
            * four_bytes(n)[3] == n,
{
}

/// What a fingerprint is taken of holds three bytes for each frame: its loudness, its
/// changes of sign and its peak.
pub proof fn levels_are_kept_by_frame(
    levels: Seq<(u8, u8)>,
    frames: Seq<LocalAudioFrameStats>,
    k: int,
)
    requires
        levels.len() == frames.len(),
        0 <= k < levels.len(),
    ensures
        level_bytes(levels, frames).len() == 3 * levels.len(),
        level_bytes(levels, frames)[3 * k] == levels[k].0,
        level_bytes(levels, frames)[3 * k + 1] == crossing_level(
            frames[k].zero_crossings as int,
        ) as u8,
        level_bytes(levels, frames)[3 * k + 2] == levels[k].1,
    decreases levels.len(),
{
    let rest = level_bytes(levels.drop_last(), frames.drop_last());
    lemma_level_bytes_len(levels.drop_last(), frames.drop_last());
    if k < levels.len() - 1 {
        levels_are_kept_by_frame(levels.drop_last(), frames.drop_last(), k);
        assert(levels.drop_last()[k] == levels[k] && frames.drop_last()[k] == frames[k]);
    }
}

proof fn lemma_level_bytes_len(levels: Seq<(u8, u8)>, frames: Seq<LocalAudioFrameStats>)
    ensures
        level_bytes(levels, frames).len() == 3 * levels.len(),
    decreases levels.len(),
{
    if levels.len() > 0 {
        lemma_level_bytes_len(levels.drop_last(), frames.drop_last());
    }
}

/// Why a file is not fingerprinted, by the first that holds: it is not playable, it
/// cannot be opened or probed, it has no audio, its length is not known, or it is no
/// longer than two minutes.
pub proof fn files_that_are_not_fingerprinted(
    file: FingerprintMediaFile,
    probe: Option<FileProbe>,
)
    ensures
        ({
            let skip = audio_file_skip(file, probe);
            &&& file.scan_state@ != "ok"@ ==> skip == Some("media_file_not_playable"@)
            &&& file.scan_state@ == "ok"@ ==> match probe->0 {
                FileProbe::Unavailable(e) => skip == Some("file_unavailable:"@ + e@),
                FileProbe::Failed(_, e) => skip == Some("ffprobe_failed:"@ + e@),
                FileProbe::TimedOut(_) => skip == Some("ffprobe_timeout"@),
                FileProbe::Probed(_, m) => {
                    let seconds = extraction::known_seconds(
                        m.duration_seconds,
                        file.duration_seconds,
                    );
                    &&& !has_audio(m) ==> skip == Some("no_audio_stream"@)
                    &&& has_audio(m) && seconds is None ==> skip == Some("unknown_duration"@)
                    &&& has_audio(m) && seconds is Some && seconds->0 <= 120 ==> skip == Some(
                        "duration_too_short"@,
                    )
                    &&& skip is None ==> has_audio(m) && seconds is Some && seconds->0 > 120
                },
            }
        }),
{
}

/// The fingerprinting of a file ends with its windows kept and counted; without a window,
/// and after an error, it is skipped with the reason; a shutdown is passed on as it is.
pub proof fn fingerprinting_ends(
    summary: LocalAudioFingerprintSummary,
    duration_seconds: i64,
    outcome: Result<Vec<LocalAudioFingerprintOutputWindow>, String>,
    r: Result<(LocalAudioFingerprintSummary, Option<JsonValue>), SegmentError>,
)
    requires
        call_ensures(finish_audio_fingerprint, (summary, duration_seconds, outcome), r),
    ensures
        match outcome {
            Ok(w) => r is Ok && ({
                let (s, kept) = r->Ok_0;
                &&& w@.len() > 0 ==> kept is Some && kept->0@ == fingerprint_json(
                    duration_seconds,
                    w@,
                ) && (w@.len() <= usize::MAX ==> s.windows_fingerprinted == w@.len()) && s.status
                    == summary.status
                &&& w@.len() == 0 ==> kept is None && s.status@ == "skipped"@ && s.reason->0@
                    == "audio_fingerprint_extraction_empty"@ && s.windows_fingerprinted == 0
            }),
            Err(m) => {
                &&& text::contains_seq(m@, "interrupted by shutdown"@) ==> r is Err
                    && r->Err_0.message@ == m@
                &&& !text::contains_seq(m@, "interrupted by shutdown"@) ==> r is Ok && ({
                    let (s, kept) = r->Ok_0;
                    kept is None && s.status@ == "skipped"@ && s.reason->0@ == "ffmpeg_failed:"@
                        + m@
                })
            },
        },
{
}

/// An extraction is refused just where it has no window and some range of it failed.
pub proof fn failed_extractions_are_refused(
    windows: usize,
    failed_ranges: usize,
    r: Result<(), SegmentError>,
)
    requires
        call_ensures(check_audio_extraction, (windows, failed_ranges), r),
    ensures
        r is Ok <==> windows > 0 || failed_ranges == 0,
{
}

/// What a fingerprinting reports: that it was skipped and why, or that it is well, and its
/// version.
pub proof fn fingerprintings_are_reported(
    r: AudioFingerprintPlan,
    media_file_id: Seq<char>,
    file: FingerprintMediaFile,
    probe: Option<FileProbe>,
)
    requires
        plans_audio(r, media_file_id, file, probe),
    ensures
        r.summary.media_file_id@ == media_file_id,
        r.summary.fingerprint_version@ == "local-audio-fingerprint-v1"@,
        r.summary.windows_fingerprinted == 0,
        audio_file_skip(file, probe) is Some ==> r.summary.status@ == "skipped"@
            && r.summary.reason is Some && r.summary.reason->0@ == audio_file_skip(file, probe)->0
            && r.ranges@.len() == 0,
        audio_file_skip(file, probe) is None ==> r.summary.status@ == "ok"@ && r.summary.reason
            is None && r.ranges@.len() > 0 && r.ranges@.len() == r.summary.extraction_ranges,
        r.keeps_probe <==> audio_file_skip(file, probe) == Some("no_audio_stream"@),
{
    assert(ranges_of(r.ranges@).len() == r.ranges@.len());
    if audio_file_skip(file, probe) is None {
        let plan = ranges_of(r.ranges@);
        assert(windows_planned(plan) > 0);
        assert(plan.len() > 0);
    }
}

/// What is kept of the windows of a file: how they were taken, and each with its times and
/// its fingerprint.
pub proof fn windows_are_kept(
    duration_seconds: i64,
    windows: Seq<LocalAudioFingerprintOutputWindow>,
    w: LocalAudioFingerprintOutputWindow,
)
    ensures
        ({
            let kept = fingerprint_json(duration_seconds, windows);
            &&& json::json_get(kept, "channel_layout"@) == Some(Json::Text("mono"@))
            &&& json::json_get(kept, "detector"@) == Some(Json::Text("local_audio_recurring"@))
            &&& json::json_get(kept, "duration_seconds"@) == Some(
                settings::whole_json(duration_seconds),
            )
            &&& json::json_get(kept, "sample_rate_hz"@) == Some(
                Json::Number(JsonNumber::Unsigned(8_000)),
            )
            &&& json::json_get(kept, "step_seconds"@) == Some(
                Json::Number(JsonNumber::Fraction(15_000_000)),
            )
            &&& json::json_get(kept, "version"@) == Some(
                Json::Text("local-audio-fingerprint-v1"@),
            )
            &&& json::json_get(kept, "windows"@) is Some
            &&& json::json_get(kept, "windows"@)->0 is Array
            &&& json::json_get(kept, "windows"@)->0->Array_0.len() == windows.len()
            &&& json::json_get(window_json(w), "start_seconds"@) == Some(
                Json::Number(JsonNumber::Fraction(w.start)),
            )
            &&& json::json_get(window_json(w), "end_seconds"@) == Some(
                Json::Number(JsonNumber::Fraction(w.end)),
            )
            &&& json::json_get(window_json(w), "hash"@) == Some(Json::Text(w.hash@))
        }),
{
    lemma_kept_names_differ();
    let m = fingerprint_json(duration_seconds, windows)->Object_0;
    json::lemma_lookup_at(m, "channel_layout"@, 0);
    json::lemma_lookup_at(m, "detector"@, 1);
    json::lemma_lookup_at(m, "duration_seconds"@, 2);
    json::lemma_lookup_at(m, "sample_rate_hz"@, 3);
    json::lemma_lookup_at(m, "step_seconds"@, 4);
    json::lemma_lookup_at(m, "version"@, 5);
    json::lemma_lookup_at(m, "windows"@, 7);
    json::lemma_lookup_at(window_json(w)->Object_0, "end_seconds"@, 0);
    json::lemma_lookup_at(window_json(w)->Object_0, "hash"@, 1);
    json::lemma_lookup_at(window_json(w)->Object_0, "start_seconds"@, 2);
}

proof fn lemma_kept_names_differ()
    ensures
        "channel_layout"@ != "detector"@,
        "channel_layout"@ != "duration_seconds"@,
        "channel_layout"@ != "sample_rate_hz"@,
        "channel_layout"@ != "step_seconds"@,
        "channel_layout"@ != "version"@,
        "channel_layout"@ != "window_lengths_seconds"@,
        "channel_layout"@ != "windows"@,
        "channel_layout"@ != "end_seconds"@,
        "channel_layout"@ != "hash"@,
        "channel_layout"@ != "start_seconds"@,
        "detector"@ != "duration_seconds"@,
        "detector"@ != "sample_rate_hz"@,
        "detector"@ != "step_seconds"@,
        "detector"@ != "version"@,
        "detector"@ != "window_lengths_seconds"@,
        "detector"@ != "windows"@,
        "detector"@ != "end_seconds"@,
        "detector"@ != "hash"@,
        "detector"@ != "start_seconds"@,
        "duration_seconds"@ != "sample_rate_hz"@,
        "duration_seconds"@ != "step_seconds"@,
        "duration_seconds"@ != "version"@,
        "duration_seconds"@ != "window_lengths_seconds"@,
        "duration_seconds"@ != "windows"@,
        "duration_seconds"@ != "end_seconds"@,
        "duration_seconds"@ != "hash"@,
        "duration_seconds"@ != "start_seconds"@,
        "sample_rate_hz"@ != "step_seconds"@,
        "sample_rate_hz"@ != "version"@,
        "sample_rate_hz"@ != "window_lengths_seconds"@,
        "sample_rate_hz"@ != "windows"@,
        "sample_rate_hz"@ != "end_seconds"@,
        "sample_rate_hz"@ != "hash"@,
        "sample_rate_hz"@ != "start_seconds"@,
        "step_seconds"@ != "version"@,
        "step_seconds"@ != "window_lengths_seconds"@,
        "step_seconds"@ != "windows"@,
        "step_seconds"@ != "end_seconds"@,
        "step_seconds"@ != "hash"@,
        "step_seconds"@ != "start_seconds"@,
        "version"@ != "window_lengths_seconds"@,
        "version"@ != "windows"@,
        "version"@ != "end_seconds"@,
        "version"@ != "hash"@,
        "version"@ != "start_seconds"@,
        "window_lengths_seconds"@ != "windows"@,
        "window_lengths_seconds"@ != "end_seconds"@,
        "window_lengths_seconds"@ != "hash"@,
        "window_lengths_seconds"@ != "start_seconds"@,
        "windows"@ != "end_seconds"@,
        "windows"@ != "hash"@,
        "windows"@ != "start_seconds"@,
        "end_seconds"@ != "hash"@,
        "end_seconds"@ != "start_seconds"@,
        "hash"@ != "start_seconds"@,
{
    reveal_strlit("channel_layout");
    reveal_strlit("detector");
    reveal_strlit("duration_seconds");
    reveal_strlit("sample_rate_hz");
    reveal_strlit("step_seconds");
    reveal_strlit("version");
    reveal_strlit("window_lengths_seconds");
    reveal_strlit("windows");
    reveal_strlit("end_seconds");
    reveal_strlit("hash");
    reveal_strlit("start_seconds");
    assert("channel_layout"@.len() == 14);
    assert("detector"@.len() == 8);
    assert("duration_seconds"@.len() == 16);
    assert("sample_rate_hz"@.len() == 14);
    assert("step_seconds"@.len() == 12);
    assert("version"@.len() == 7);
    assert("window_lengths_seconds"@.len() == 22);
    assert("windows"@.len() == 7);
    assert("end_seconds"@.len() == 11);
    assert("hash"@.len() == 4);
    assert("start_seconds"@.len() == 13);
    assert("channel_layout"@[0] == 'c');
    assert("sample_rate_hz"@[0] == 's');
    assert("version"@[0] == 'v');
    assert("windows"@[0] == 'w');
}

/// The windows of a range come by their start, and by their end where they start together;
/// none comes twice.
pub proof fn windows_come_in_order(start: int, end: int, room: nat)
    ensures
        ({
            let w = range_windows(start, end, room);
            forall|i: int, j: int|
                0 <= i < j < w.len() ==> (#[trigger] w[i]).start < (#[trigger] w[j]).start || (
                w[i].start == w[j].start && w[i].end < w[j].end)
        }),
{
    let all = windows_of_lengths(start, end, window_lengths(), room);
    let sorted = order::arranged(all, window_order());
    assert(order::ranks(window_order()));
    order::lemma_arranged_in_order(all, window_order());
    lemma_without_repeats_rises(sorted);
}

proof fn lemma_without_repeats_rises(s: Seq<LocalAudioFingerprintWindowSpec>)
    requires
        order::in_order(s, window_order()),
    ensures
        ({
            let w = without_repeats(s);
            &&& s.len() > 0 ==> w.len() > 0 && w.last() == s.last()
            &&& forall|i: int, j: int|
                0 <= i < j < w.len() ==> (#[trigger] w[i]).start < (#[trigger] w[j]).start || (
                w[i].start == w[j].start && w[i].end < w[j].end)
        }),
    decreases s.len(),
{
    if s.len() > 0 {
        let rest = s.drop_last();
        assert(order::in_order(rest, window_order())) by {
            assert forall|i: int, j: int| 0 <= i < j < rest.len() implies !window_order()(
                #[trigger] rest[j],
                #[trigger] rest[i],
            ) by {
                assert(!window_order()(s[j], s[i]));
            }
        }
        lemma_without_repeats_rises(rest);
        let r = without_repeats(rest);
        let w = without_repeats(s);
        if rest.len() > 0 {
            assert(!window_order()(s[s.len() - 1], s[s.len() - 2]));
            assert(r.last() == s[s.len() - 2]);
            assert forall|i: int, j: int| 0 <= i < j < w.len() implies (#[trigger] w[i]).start < (
            #[trigger] w[j]).start || (w[i].start == w[j].start && w[i].end < w[j].end) by {
                if j < r.len() {
                    assert(w[i] == r[i] && w[j] == r[j]);
                } else if i < r.len() - 1 {
                    assert(w[i] == r[i]);
                    assert(r[i].start < r[r.len() - 1].start || (r[i].start == r[r.len() - 1].start
                        && r[i].end < r[r.len() - 1].end));
                }
            }
        }
    }
}

/// Where the windows of the early part leave room and the late part has windows, the late
/// part is planned too, behind the early one.
pub proof fn outros_are_planned(duration: int)
    requires
        120_000_000 < duration < 900_000_000_000_000,
        range_windows(0, early_end(duration), 160).len() < 160,
        range_windows(
            late_start(duration),
            duration,
            (160 - range_windows(0, early_end(duration), 160).len()) as nat,
        ).len() > 0,
    ensures
        ({
            let plan = plan_of(duration);
            let early = range_windows(0, early_end(duration), 160);
            &&& plan.len() == if early.len() > 0 {
                2int
            } else {
                1
            }
            &&& plan.last().start == late_start(duration)
            &&& plan.last().end == duration
            &&& plan.last().windows == range_windows(
                late_start(duration),
                duration,
                (160 - early.len()) as nat,
            )
            &&& windows_planned(plan) == early.len() + plan.last().windows.len()
        }),
{
    let plan = plan_of(duration);
    let early = range_windows(0, early_end(duration), 160);
    reveal_with_fuel(windows_planned, 3);
    assert(plan.drop_last() =~= if early.len() > 0 {
        seq![Range { start: 0, end: early_end(duration) as i64, windows: early }]
    } else {
        Seq::empty()
    });
    if early.len() > 0 {
        assert(plan.drop_last().drop_last() =~= Seq::empty());
    }
}

} // verus!
