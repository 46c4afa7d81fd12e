//! The detector of themes that recur in the audio of a season.
//!
//! Windows of two or more files with one fingerprint are the same theme: near
//! the start of an episode an intro, in its second half an outro. Of each file
//! and type the theme that most files share is kept.

use vstd::prelude::*;
use crate::candidate::{self, SegmentCandidateInput, Submission};
use crate::consts;
use crate::error::opt_text;
use crate::fingerprint::{self, LocalAudioFingerprintOutputWindow};
use crate::json::{self, saturate_i64, text_value, Json, JsonNumber, JsonValue};
use crate::quantity::Quantity;
use crate::reading::{self, find_first_member, provider_seconds};
use crate::runs::LocalAudioDetectorSummary;
use crate::settings::{self, local_audio_min_repeat_count, local_audio_min_season_files, provider_settings_enabled};
use crate::text;
use crate::visual::{self, payload_elements};

verus! {

/// A window of a file with its fingerprint. Times are in microseconds.
#[derive(Debug)]
pub struct AudioFingerprintWindow {
    pub media_file_id: String,
    pub episode_id: String,
    pub start: i64,
    pub end: i64,
    pub hash: String,
    pub duration: Option<i64>,
}

/// The same, as a mathematical value.
#[verifier::ext_equal]
pub struct AudioWindow {
    pub media_file_id: Seq<char>,
    pub episode_id: Seq<char>,
    pub start: i64,
    pub end: i64,
    pub hash: Seq<char>,
    pub duration: Option<i64>,
}

impl View for AudioFingerprintWindow {
    type V = AudioWindow;

    open spec fn view(&self) -> AudioWindow {
        AudioWindow {
            media_file_id: self.media_file_id@,
            episode_id: self.episode_id@,
            start: self.start,
            end: self.end,
            hash: self.hash@,
            duration: self.duration,
        }
    }
}

/// Some windows, as mathematical values.
pub open spec fn windows_of(v: Seq<AudioFingerprintWindow>) -> Seq<AudioWindow> {
    v.map_values(|w: AudioFingerprintWindow| w@)
}

/// The names under which a payload holds its windows.
pub open spec fn window_list_names() -> Seq<Seq<char>> {
    seq!["windows"@, "fingerprints"@, "segments"@]
}

/// The names of a fingerprint.
pub open spec fn hash_names() -> Seq<Seq<char>> {
    seq!["hash"@, "fingerprint"@, "signature"@]
}

/// The names of the start of a window.
pub open spec fn window_start_names() -> Seq<Seq<char>> {
    seq!["start_seconds"@, "startSeconds"@, "start"@, "start_time"@]
}

/// The names of the end of a window.
pub open spec fn window_end_names() -> Seq<Seq<char>> {
    seq!["end_seconds"@, "endSeconds"@, "end"@, "end_time"@]
}

/// The names of the length of a window.
pub open spec fn window_length_names() -> Seq<Seq<char>> {
    seq!["duration_seconds"@, "durationSeconds"@, "duration"@]
}

/// How many bytes a character takes in UTF-8.
pub open spec fn utf8_width(c: char) -> int {
    if c <= '\u{7f}' {
        1
    } else if c <= '\u{7ff}' {
        2
    } else if c <= '\u{ffff}' {
        3
    } else {
        4
    }
}

/// How many bytes a text takes in UTF-8.
pub open spec fn utf8_length(s: Seq<char>) -> int
    decreases s.len(),
{
    if s.len() == 0 {
        0
    } else {
        utf8_length(s.drop_last()) + utf8_width(s.last())
    }
}

/// Whether a text takes three bytes or more in UTF-8.
fn takes_three_bytes(s: &str) -> (r: bool)
    ensures
        r == (utf8_length(s@) >= 3),
{
    let v = text::chars_of(s);
    let n: usize = v.len();
    let mut total: usize = 0;
    let mut i: usize = 0;
    proof {
        assert(v@.take(0) =~= Seq::empty());
    }
    while i < n && total < 3
        invariant
            i <= n == v@.len(),
            total <= 6,
            total == utf8_length(v@.take(i as int)),
        decreases n - i,
    {
        proof {
            assert(v@.take(i + 1).drop_last() =~= v@.take(i as int));
        }
        let c: char = v[i];
        let width: usize = if c <= '\u{7f}' {
            1
        } else if c <= '\u{7ff}' {
            2
        } else if c <= '\u{ffff}' {
            3
        } else {
            4
        };
        total = total + width;
        i += 1;
    }
    proof {
        lemma_length_grows(v@, i as int);
        assert(v@.take(n as int) =~= v@);
    }
    total >= 3
}

proof fn lemma_length_grows(s: Seq<char>, i: int)
    requires
        0 <= i <= s.len(),
    ensures
        0 <= utf8_length(s.take(i)) <= utf8_length(s),
    decreases s.len(),
{
    if i < s.len() {
        lemma_length_grows(s.drop_last(), i);
        assert(s.drop_last().take(i) =~= s.take(i));
    } else {
        assert(s.take(i) =~= s);
        if s.len() > 0 {
            lemma_length_grows(s.drop_last(), s.len() - 1);
            assert(s.drop_last().take(s.len() - 1) =~= s.drop_last());
        }
    }
}

/// The fingerprint in an element of a payload, where it is long enough.
pub open spec fn hash_in(j: Json) -> Option<Seq<char>> {
    match reading::first_member(j, hash_names()) {
        Some(v) => match json::json_text(v) {
            Some(s) => if utf8_length(text::trim_seq(s)) >= 3 {
                Some(text::lower_seq(text::trim_seq(s)))
            } else {
                None
            },
            None => None,
        },
        None => None,
    }
}

/// The window in an element of a payload: it has a fingerprint, a start and an
/// end, or a length in place of the end.
pub open spec fn window_of(
    media_file_id: Seq<char>,
    episode_id: Seq<char>,
    duration: Option<i64>,
    j: Json,
) -> Option<AudioWindow> {
    let start = reading::first_time(j, window_start_names());
    let end = match reading::first_time(j, window_end_names()) {
        Some(t) => Some(t),
        None => match reading::first_time(j, window_length_names()) {
            Some(d) => Some(json::clamp_i64(start->0 + d)),
            None => None,
        },
    };
    match hash_in(j) {
        Some(hash) => if start is None || end is None || start->0 < 0 || end->0 <= start->0 {
            None
        } else {
            Some(
                AudioWindow {
                    media_file_id,
                    episode_id,
                    start: start->0,
                    end: end->0,
                    hash,
                    duration,
                },
            )
        },
        None => None,
    }
}

/// The windows among some elements of a payload.
pub open spec fn windows_in(
    media_file_id: Seq<char>,
    episode_id: Seq<char>,
    duration: Option<i64>,
    a: Seq<Json>,
) -> Seq<AudioWindow>
    decreases a.len(),
{
    if a.len() == 0 {
        Seq::empty()
    } else {
        let rest = windows_in(media_file_id, episode_id, duration, a.drop_last());
        match window_of(media_file_id, episode_id, duration, a.last()) {
            Some(w) => rest.push(w),
            None => rest,
        }
    }
}

fn read_hash(window: &JsonValue) -> (r: Option<String>)
    ensures
        opt_text(r) == hash_in(window@),
{
    let keys: Vec<&str> = vec!["hash", "fingerprint", "signature"];
    proof {
        assert(reading::names(keys@) =~= hash_names());
    }
    match find_first_member(window, &keys) {
        Some(v) => match v.as_text() {
            Some(s) => {
                let t = text::trim(s.as_str());
                if takes_three_bytes(t.as_str()) {
                    Some(text::to_lower(t.as_str()))
                } else {
                    None
                }
            },
            None => None,
        },
        None => None,
    }
}

fn read_window(
    media_file_id: &str,
    episode_id: &str,
    duration: Option<i64>,
    window: &JsonValue,
) -> (r: Option<AudioFingerprintWindow>)
    ensures
        match r {
            Some(w) => window_of(media_file_id@, episode_id@, duration, window@) == Some(w@),
            None => window_of(media_file_id@, episode_id@, duration, window@) is None,
        },
{
    let start_keys: Vec<&str> = vec!["start_seconds", "startSeconds", "start", "start_time"];
    let end_keys: Vec<&str> = vec!["end_seconds", "endSeconds", "end", "end_time"];
    let length_keys: Vec<&str> = vec!["duration_seconds", "durationSeconds", "duration"];
    proof {
        assert(reading::names(start_keys@) =~= window_start_names());
        assert(reading::names(end_keys@) =~= window_end_names());
        assert(reading::names(length_keys@) =~= window_length_names());
    }
    let hash: String = match read_hash(window) {
        Some(h) => h,
        None => {
            return None;
        },
    };
    let start: i64 = match provider_seconds(window, &start_keys) {
        Some(t) => t,
        None => {
            return None;
        },
    };
    let end: i64 = match provider_seconds(window, &end_keys) {
        Some(t) => t,
        None => match provider_seconds(window, &length_keys) {
            Some(d) => saturate_i64(start as i128 + d as i128),
            None => {
                return None;
            },
        },
    };
    if start < 0 || end <= start {
        return None;
    }
    Some(
        AudioFingerprintWindow {
            media_file_id: media_file_id.to_owned(),
            episode_id: episode_id.to_owned(),
            start,
            end,
            hash,
            duration,
        },
    )
}

/// The windows of a payload.
pub fn audio_fingerprint_windows_from_value(
    media_file_id: &str,
    episode_id: &str,
    duration: Option<i64>,
    value: &JsonValue,
) -> (r: Vec<AudioFingerprintWindow>)
    ensures
        windows_of(r@) == windows_in(
            media_file_id@,
            episode_id@,
            duration,
            visual::payload_list(value@, window_list_names()),
        ),
{
    let list_keys: Vec<&str> = vec!["windows", "fingerprints", "segments"];
    proof {
        assert(reading::names(list_keys@) =~= window_list_names());
    }
    let mut out: Vec<AudioFingerprintWindow> = Vec::new();
    proof {
        assert(windows_of(out@) =~= Seq::empty());
    }
    let a: &Vec<JsonValue> = match payload_elements(value, &list_keys) {
        Some(a) => a,
        None => {
            return out;
        },
    };
    let ghost all = reading::elements_of(a@);
    let mut i: usize = 0;
    proof {
        assert(all.take(0) =~= Seq::empty());
    }
    while i < a.len()
        invariant
            i <= a@.len(),
            all == reading::elements_of(a@),
            windows_of(out@) == windows_in(
                media_file_id@,
                episode_id@,
                duration,
                all.take(i as int),
            ),
        decreases a@.len() - i,
    {
        proof {
            assert(all.take(i + 1).drop_last() =~= all.take(i as int));
            assert(all.take(i + 1).last() == a@[i as int]@);
        }
        let ghost before = windows_of(out@);
        match read_window(media_file_id, episode_id, duration, &a[i]) {
            Some(w) => {
                out.push(w);
                proof {
                    assert(windows_of(out@) =~= before.push(w@));
                }
            },
            None => {},
        }
        i += 1;
    }
    proof {
        assert(all.take(a@.len() as int) =~= all);
    }
    out
}

/// A theme that was found in a file. Times are in microseconds, the confidence
/// in millionths.
#[derive(Debug)]
pub struct LocalAudioDetectedSegment {
    pub media_file_id: String,
    pub episode_id: String,
    pub segment_type: &'static str,
    pub start: i64,
    pub end: i64,
    pub hash: String,
    pub repeat_count: usize,
    pub confidence: i64,
    pub label: &'static str,
}

/// The same, as a mathematical value.
#[verifier::ext_equal]
pub struct Theme {
    pub media_file_id: Seq<char>,
    pub episode_id: Seq<char>,
    pub segment_type: Seq<char>,
    pub start: i64,
    pub end: i64,
    pub hash: Seq<char>,
    pub repeat_count: nat,
    pub confidence: i64,
    pub label: Seq<char>,
}

impl View for LocalAudioDetectedSegment {
    type V = Theme;

    open spec fn view(&self) -> Theme {
        Theme {
            media_file_id: self.media_file_id@,
            episode_id: self.episode_id@,
            segment_type: self.segment_type@,
            start: self.start,
            end: self.end,
            hash: self.hash@,
            repeat_count: self.repeat_count as nat,
            confidence: self.confidence,
            label: self.label@,
        }
    }
}

/// Some themes, as mathematical values.
pub open spec fn themes_of(v: Seq<LocalAudioDetectedSegment>) -> Seq<Theme> {
    v.map_values(|t: LocalAudioDetectedSegment| t@)
}

/// How sure the detector is of a theme, in millionths: the more of the season's
/// files share it, the surer; the share is rounded down.
pub open spec fn theme_confidence(repeat_count: nat, files: nat) -> int {
    let share = if files == 0 {
        0
    } else if repeat_count >= files {
        120_000
    } else {
        repeat_count as int * 120_000 / files as int
    };
    let sum = consts::LOCAL_AUDIO_DETECTOR_MIN_CONFIDENCE + share;
    if sum > 970_000 {
        970_000
    } else {
        sum
    }
}

/// How sure the detector is of a theme, in millionths.
pub fn local_audio_confidence(repeat_count: usize, season_file_count: usize) -> (r: i64)
    ensures
        r == theme_confidence(repeat_count as nat, season_file_count as nat),
        820_000 <= r <= 970_000,
{
    let share: i64 = if season_file_count == 0 {
        0
    } else if repeat_count >= season_file_count {
        120_000
    } else {
        let whole: u128 = repeat_count as u128 * 120_000u128;
        proof {
            assert(0 <= whole / (season_file_count as u128) <= 120_000) by (nonlinear_arith)
                requires
                    whole == repeat_count as u128 * 120_000u128,
                    repeat_count < season_file_count,
            ;
        }
        (whole / season_file_count as u128) as i64
    };
    let sum: i64 = 820_000 + share;
    if sum > 970_000 {
        970_000
    } else {
        sum
    }
}

/// What a window of a theme is, by where it lies: an intro or an outro.
pub open spec fn theme_kind(w: AudioWindow) -> Option<(Seq<char>, Seq<char>)> {
    let d: int = match w.duration {
        Some(d) => d as int,
        None => 0,
    };
    if w.start <= consts::LOCAL_AUDIO_DETECTOR_MAX_INTRO_START_MICROS && (d > 0 ==> w.start
        * 1_000_000 <= d * consts::EARLY_WINDOW_FRACTION) {
        Some(("intro"@, "Local audio intro"@))
    } else if d > 0 && w.start * 1_000_000 >= d * consts::LATE_WINDOW_FRACTION {
        Some(("outro"@, "Local audio outro"@))
    } else {
        None
    }
}

/// The theme that a window stands for; one that is too short or too long stands
/// for none.
pub open spec fn theme_of(w: AudioWindow, hash: Seq<char>, repeat_count: nat, files: nat) -> Option<
    Theme,
> {
    if !(20_000_000 <= w.end - w.start <= 180_000_000) {
        None
    } else {
        match theme_kind(w) {
            Some((segment_type, label)) => Some(
                Theme {
                    media_file_id: w.media_file_id,
                    episode_id: w.episode_id,
                    segment_type,
                    start: w.start,
                    end: w.end,
                    hash,
                    repeat_count,
                    confidence: theme_confidence(repeat_count, files) as i64,
                    label,
                },
            ),
            None => None,
        }
    }
}

/// The theme that a window stands for.
pub fn classify_audio_window(
    window: &AudioFingerprintWindow,
    hash: &str,
    repeat_count: usize,
    season_file_count: usize,
) -> (r: Option<LocalAudioDetectedSegment>)
    ensures
        match r {
            Some(t) => theme_of(
                window@,
                hash@,
                repeat_count as nat,
                season_file_count as nat,
            ) == Some(t@),
            None => theme_of(
                window@,
                hash@,
                repeat_count as nat,
                season_file_count as nat,
            ) is None,
        },
{
    let length: i128 = window.end as i128 - window.start as i128;
    if !(20_000_000 <= length && length <= 180_000_000) {
        return None;
    }
    let duration: i128 = match window.duration {
        Some(d) => d as i128,
        None => 0,
    };
    let start: i128 = window.start as i128;
    let early = start <= 600_000_000 && (duration <= 0 || start * 1_000_000 <= duration * 350_000);
    let (segment_type, label) = if early {
        ("intro", "Local audio intro")
    } else if duration > 0 && start * 1_000_000 >= duration * 500_000 {
        ("outro", "Local audio outro")
    } else {
        return None;
    };
    Some(
        LocalAudioDetectedSegment {
            media_file_id: window.media_file_id.clone(),
            episode_id: window.episode_id.clone(),
            segment_type,
            start: window.start,
            end: window.end,
            hash: hash.to_owned(),
            repeat_count,
            confidence: local_audio_confidence(repeat_count, season_file_count),
            label,
        },
    )
}

/// The fingerprints with one more, in order and each once.
pub open spec fn with_hash(hashes: Seq<Seq<char>>, h: Seq<char>) -> Seq<Seq<char>>
    decreases hashes.len(),
{
    if hashes.len() == 0 {
        seq![h]
    } else if hashes[0] == h {
        hashes
    } else if text::lex_lt(h, hashes[0]) {
        seq![h] + hashes
    } else {
        seq![hashes[0]] + with_hash(hashes.drop_first(), h)
    }
}

/// The fingerprints of some windows, in order and each once.
pub open spec fn hashes_of(all: Seq<AudioWindow>) -> Seq<Seq<char>>
    decreases all.len(),
{
    if all.len() == 0 {
        Seq::empty()
    } else {
        with_hash(hashes_of(all.drop_last()), all.last().hash)
    }
}

/// The files of the windows with a fingerprint, each once.
pub open spec fn files_with(all: Seq<AudioWindow>, h: Seq<char>) -> Seq<Seq<char>>
    decreases all.len(),
{
    if all.len() == 0 {
        Seq::empty()
    } else {
        let rest = files_with(all.drop_last(), h);
        if all.last().hash == h && !rest.contains(all.last().media_file_id) {
            rest.push(all.last().media_file_id)
        } else {
            rest
        }
    }
}

/// The themes that the windows with a fingerprint stand for.
pub open spec fn themes_with(all: Seq<AudioWindow>, h: Seq<char>, repeat_count: nat, files: nat) -> Seq<
    Theme,
>
    decreases all.len(),
{
    if all.len() == 0 {
        Seq::empty()
    } else {
        let rest = themes_with(all.drop_last(), h, repeat_count, files);
        if all.last().hash != h {
            rest
        } else {
            match theme_of(all.last(), h, repeat_count, files) {
                Some(t) => rest.push(t),
                None => rest,
            }
        }
    }
}

/// Whether `a` comes before `b`, by the file and the type.
pub open spec fn theme_before(a: Theme, b: Theme) -> bool {
    if a.media_file_id != b.media_file_id {
        text::lex_lt(a.media_file_id, b.media_file_id)
    } else {
        text::lex_lt(a.segment_type, b.segment_type)
    }
}

/// Whether two themes are of one file and one type.
pub open spec fn same_place(a: Theme, b: Theme) -> bool {
    a.media_file_id == b.media_file_id && a.segment_type == b.segment_type
}

/// The best themes with one more: of one file and type the surer stays, and the
/// earlier one of two that are equally sure.
pub open spec fn improved(best: Seq<Theme>, t: Theme) -> Seq<Theme>
    decreases best.len(),
{
    if best.len() == 0 {
        seq![t]
    } else if same_place(t, best[0]) {
        if t.confidence > best[0].confidence {
            seq![t] + best.drop_first()
        } else {
            best
        }
    } else if theme_before(t, best[0]) {
        seq![t] + best
    } else {
        seq![best[0]] + improved(best.drop_first(), t)
    }
}

/// The best themes with some more.
pub open spec fn improved_by(best: Seq<Theme>, more: Seq<Theme>) -> Seq<Theme>
    decreases more.len(),
{
    if more.len() == 0 {
        best
    } else {
        improved(improved_by(best, more.drop_last()), more.last())
    }
}

/// The themes of a fingerprint that enough files share.
pub open spec fn shared_themes(all: Seq<AudioWindow>, h: Seq<char>, min_repeat: nat, files: nat) -> Seq<
    Theme,
> {
    let n = files_with(all, h).len();
    if n < min_repeat {
        Seq::empty()
    } else {
        themes_with(all, h, n, files)
    }
}

/// The best themes over some fingerprints.
pub open spec fn best_themes(
    all: Seq<AudioWindow>,
    hashes: Seq<Seq<char>>,
    min_repeat: nat,
    files: nat,
) -> Seq<Theme>
    decreases hashes.len(),
{
    if hashes.len() == 0 {
        Seq::empty()
    } else {
        improved_by(
            best_themes(all, hashes.drop_last(), min_repeat, files),
            shared_themes(all, hashes.last(), min_repeat, files),
        )
    }
}

/// How many of some fingerprints stand for a theme.
pub open spec fn theme_groups(
    all: Seq<AudioWindow>,
    hashes: Seq<Seq<char>>,
    min_repeat: nat,
    files: nat,
) -> nat
    decreases hashes.len(),
{
    if hashes.len() == 0 {
        0
    } else {
        theme_groups(all, hashes.drop_last(), min_repeat, files) + if shared_themes(
            all,
            hashes.last(),
            min_repeat,
            files,
        ).len() > 0 {
            1nat
        } else {
            0
        }
    }
}

/// The windows of some files, one file after the other.
pub open spec fn season_windows(files: Seq<Seq<AudioWindow>>) -> Seq<AudioWindow>
    decreases files.len(),
{
    if files.len() == 0 {
        Seq::empty()
    } else {
        season_windows(files.drop_last()) + files.last()
    }
}

/// The windows that some references stand for.
pub open spec fn referred(v: Seq<&AudioFingerprintWindow>) -> Seq<AudioWindow> {
    v.map_values(|w: &AudioFingerprintWindow| w@)
}

proof fn lemma_with_hash_at(hashes: Seq<Seq<char>>, h: Seq<char>, p: int)
    requires
        0 <= p <= hashes.len(),
        forall|i: int|
            0 <= i < p ==> #[trigger] hashes[i] != h && !text::lex_lt(h, hashes[i]),
        p < hashes.len() ==> hashes[p] == h || text::lex_lt(h, hashes[p]),
    ensures
        with_hash(hashes, h) == if p < hashes.len() && hashes[p] == h {
            hashes
        } else {
            hashes.insert(p, h)
        },
    decreases p,
{
    if p == 0 {
        if hashes.len() == 0 {
            assert(hashes.insert(0, h) =~= seq![h]);
        } else if hashes[0] != h {
            assert(hashes.insert(0, h) =~= seq![h] + hashes);
        }
    } else {
        let rest = hashes.drop_first();
        assert(hashes[0] != h && !text::lex_lt(h, hashes[0]));
        assert forall|i: int| 0 <= i < p - 1 implies #[trigger] rest[i] != h && !text::lex_lt(
            h,
            rest[i],
        ) by {
            assert(rest[i] == hashes[i + 1]);
        }
        lemma_with_hash_at(rest, h, p - 1);
        if p < hashes.len() && hashes[p] == h {
            assert(seq![hashes[0]] + rest =~= hashes);
        } else {
            assert(hashes.insert(p, h) =~= seq![hashes[0]] + rest.insert(p - 1, h));
        }
    }
}

fn add_hash(hashes: &mut Vec<String>, h: &str)
    ensures
        crate::number::texts(final(hashes)@) == with_hash(crate::number::texts(old(hashes)@), h@),
{
    let ghost before = crate::number::texts(hashes@);
    let n: usize = hashes.len();
    let mut p: usize = 0;
    while p < n && !text::str_eq(hashes[p].as_str(), h) && !text::str_lt(h, hashes[p].as_str())
        invariant
            p <= n == hashes@.len(),
            before == crate::number::texts(hashes@),
            forall|i: int|
                0 <= i < p ==> #[trigger] before[i] != h@ && !text::lex_lt(h@, before[i]),
        decreases n - p,
    {
        proof {
            assert(before[p as int] == hashes@[p as int]@);
        }
        p += 1;
    }
    proof {
        if p < n {
            assert(before[p as int] == hashes@[p as int]@);
        }
        lemma_with_hash_at(before, h@, p as int);
    }
    if !(p < n && text::str_eq(hashes[p].as_str(), h)) {
        hashes.insert(p, h.to_owned());
        proof {
            assert(crate::number::texts(hashes@) =~= before.insert(p as int, h@));
        }
    }
}

fn all_hashes(all: &Vec<&AudioFingerprintWindow>) -> (r: Vec<String>)
    ensures
        crate::number::texts(r@) == hashes_of(referred(all@)),
{
    let ghost views = referred(all@);
    let mut out: Vec<String> = Vec::new();
    let mut i: usize = 0;
    proof {
        assert(views.take(0) =~= Seq::empty());
        assert(crate::number::texts(out@) =~= Seq::empty());
    }
    while i < all.len()
        invariant
            i <= all@.len(),
            views == referred(all@),
            crate::number::texts(out@) == hashes_of(views.take(i as int)),
        decreases all@.len() - i,
    {
        proof {
            assert(views.take(i + 1).drop_last() =~= views.take(i as int));
            assert(views.take(i + 1).last() == all@[i as int]@);
        }
        add_hash(&mut out, all[i].hash.as_str());
        i += 1;
    }
    proof {
        assert(views.take(all@.len() as int) =~= views);
    }
    out
}

/// How many files have a window with a fingerprint.
pub fn distinct_media_file_count(all: &Vec<&AudioFingerprintWindow>, hash: &str) -> (r: usize)
    ensures
        r == files_with(referred(all@), hash@).len(),
{
    let ghost views = referred(all@);
    let mut ids: Vec<&str> = Vec::new();
    let mut i: usize = 0;
    proof {
        assert(views.take(0) =~= Seq::empty());
        assert(reading::names(ids@) =~= Seq::empty());
    }
    while i < all.len()
        invariant
            i <= all@.len(),
            views == referred(all@),
            reading::names(ids@) == files_with(views.take(i as int), hash@),
        decreases all@.len() - i,
    {
        proof {
            assert(views.take(i + 1).drop_last() =~= views.take(i as int));
            assert(views.take(i + 1).last() == all@[i as int]@);
        }
        if text::str_eq(all[i].hash.as_str(), hash) {
            let id = all[i].media_file_id.as_str();
            let ghost before = reading::names(ids@);
            if !has_name(&ids, id) {
                ids.push(id);
                proof {
                    assert(reading::names(ids@) =~= before.push(id@));
                }
            }
        }
        i += 1;
    }
    proof {
        assert(views.take(all@.len() as int) =~= views);
    }
    ids.len()
}

fn has_name(v: &Vec<&str>, s: &str) -> (r: bool)
    ensures
        r == reading::names(v@).contains(s@),
{
    let mut i: usize = 0;
    while i < v.len()
        invariant
            i <= v@.len(),
            forall|j: int| 0 <= j < i ==> #[trigger] v@[j]@ != s@,
        decreases v@.len() - i,
    {
        if text::str_eq(v[i], s) {
            proof {
                assert(reading::names(v@)[i as int] == s@);
            }
            return true;
        }
        i += 1;
    }
    proof {
        if reading::names(v@).contains(s@) {
            let j = choose|j: int|
                0 <= j < reading::names(v@).len() && reading::names(v@)[j] == s@;
            assert(v@[j]@ == s@);
        }
    }
    false
}

fn is_theme_before(a: &LocalAudioDetectedSegment, b: &LocalAudioDetectedSegment) -> (r: bool)
    ensures
        r == theme_before(a@, b@),
{
    if !text::str_eq(a.media_file_id.as_str(), b.media_file_id.as_str()) {
        text::str_lt(a.media_file_id.as_str(), b.media_file_id.as_str())
    } else {
        text::str_lt(a.segment_type, b.segment_type)
    }
}

fn is_same_place(a: &LocalAudioDetectedSegment, b: &LocalAudioDetectedSegment) -> (r: bool)
    ensures
        r == same_place(a@, b@),
{
    text::str_eq(a.media_file_id.as_str(), b.media_file_id.as_str()) && text::str_eq(
        a.segment_type,
        b.segment_type,
    )
}

proof fn lemma_improved_at(best: Seq<Theme>, t: Theme, p: int)
    requires
        0 <= p <= best.len(),
        forall|i: int|
            0 <= i < p ==> !same_place(t, #[trigger] best[i]) && !theme_before(t, best[i]),
        p < best.len() ==> same_place(t, best[p]) || theme_before(t, best[p]),
    ensures
        improved(best, t) == if p < best.len() && same_place(t, best[p]) {
            if t.confidence > best[p].confidence {
                best.update(p, t)
            } else {
                best
            }
        } else {
            best.insert(p, t)
        },
    decreases p,
{
    if p == 0 {
        if best.len() == 0 {
            assert(best.insert(0, t) =~= seq![t]);
        } else if same_place(t, best[0]) {
            assert(best.update(0, t) =~= seq![t] + best.drop_first());
        } else {
            assert(best.insert(0, t) =~= seq![t] + best);
        }
    } else {
        let rest = best.drop_first();
        assert(!same_place(t, best[0]) && !theme_before(t, best[0]));
        assert forall|i: int| 0 <= i < p - 1 implies !same_place(t, #[trigger] rest[i])
            && !theme_before(t, rest[i]) by {
            assert(rest[i] == best[i + 1]);
        }
        lemma_improved_at(rest, t, p - 1);
        if p < best.len() && same_place(t, best[p]) {
            assert(seq![best[0]] + rest =~= best);
            assert(best.update(p, t) =~= seq![best[0]] + rest.update(p - 1, t));
        } else {
            assert(best.insert(p, t) =~= seq![best[0]] + rest.insert(p - 1, t));
        }
    }
}

fn improve(best: &mut Vec<LocalAudioDetectedSegment>, t: LocalAudioDetectedSegment)
    ensures
        themes_of(final(best)@) == improved(themes_of(old(best)@), t@),
{
    let ghost before = themes_of(best@);
    let n: usize = best.len();
    let mut p: usize = 0;
    while p < n && !is_same_place(&t, &best[p]) && !is_theme_before(&t, &best[p])
        invariant
            p <= n == best@.len(),
            before == themes_of(best@),
            forall|i: int|
                0 <= i < p ==> !same_place(t@, #[trigger] before[i]) && !theme_before(
                    t@,
                    before[i],
                ),
        decreases n - p,
    {
        proof {
            assert(before[p as int] == best@[p as int]@);
        }
        p += 1;
    }
    proof {
        if p < n {
            assert(before[p as int] == best@[p as int]@);
        }
        lemma_improved_at(before, t@, p as int);
    }
    if p < n && is_same_place(&t, &best[p]) {
        if t.confidence > best[p].confidence {
            best.set(p, t);
            proof {
                assert(themes_of(best@) =~= before.update(p as int, t@));
            }
        }
    } else {
        best.insert(p, t);
        proof {
            assert(themes_of(best@) =~= before.insert(p as int, t@));
        }
    }
}

/// Adds the themes of a fingerprint to the best ones; whether there was any.
fn improve_with(
    best: &mut Vec<LocalAudioDetectedSegment>,
    all: &Vec<&AudioFingerprintWindow>,
    hash: &str,
    repeat_count: usize,
    season_file_count: usize,
) -> (r: bool)
    ensures
        ({
            let found = themes_with(
                referred(all@),
                hash@,
                repeat_count as nat,
                season_file_count as nat,
            );
            &&& themes_of(final(best)@) == improved_by(themes_of(old(best)@), found)
            &&& r == (found.len() > 0)
        }),
{
    let ghost views = referred(all@);
    let ghost before = themes_of(best@);
    let mut any = false;
    let mut i: usize = 0;
    proof {
        assert(views.take(0) =~= Seq::empty());
    }
    while i < all.len()
        invariant
            i <= all@.len(),
            views == referred(all@),
            ({
                let found = themes_with(
                    views.take(i as int),
                    hash@,
                    repeat_count as nat,
                    season_file_count as nat,
                );
                themes_of(best@) == improved_by(before, found) && any == (found.len() > 0)
            }),
        decreases all@.len() - i,
    {
        proof {
            assert(views.take(i + 1).drop_last() =~= views.take(i as int));
            assert(views.take(i + 1).last() == all@[i as int]@);
        }
        let ghost found = themes_with(
            views.take(i as int),
            hash@,
            repeat_count as nat,
            season_file_count as nat,
        );
        if text::str_eq(all[i].hash.as_str(), hash) {
            match classify_audio_window(all[i], hash, repeat_count, season_file_count) {
                Some(t) => {
                    improve(best, t);
                    any = true;
                    proof {
                        assert(found.push(t@).drop_last() =~= found);
                    }
                },
                None => {},
            }
        }
        i += 1;
    }
    proof {
        assert(views.take(all@.len() as int) =~= views);
    }
    any
}

/// The windows of one file of a season.
#[derive(Debug)]
pub struct SeasonAudioFingerprintFile {
    pub windows: Vec<AudioFingerprintWindow>,
}

/// The windows of the files of a season.
pub open spec fn files_of(v: Seq<SeasonAudioFingerprintFile>) -> Seq<Seq<AudioWindow>> {
    v.map_values(|f: SeasonAudioFingerprintFile| windows_of(f.windows@))
}

fn refer_all<'a>(files: &'a Vec<SeasonAudioFingerprintFile>) -> (r: Vec<&'a AudioFingerprintWindow>)
    ensures
        referred(r@) == season_windows(files_of(files@)),
{
    let ghost views = files_of(files@);
    let mut out: Vec<&'a AudioFingerprintWindow> = Vec::new();
    let mut i: usize = 0;
    proof {
        assert(views.take(0) =~= Seq::empty());
        assert(referred(out@) =~= Seq::empty());
    }
    while i < files.len()
        invariant
            i <= files@.len(),
            views == files_of(files@),
            referred(out@) == season_windows(views.take(i as int)),
        decreases files@.len() - i,
    {
        proof {
            assert(views.take(i + 1).drop_last() =~= views.take(i as int));
            assert(views.take(i + 1).last() == windows_of(files@[i as int].windows@));
        }
        let ghost before = referred(out@);
        let ghost here = windows_of(files@[i as int].windows@);
        let mut j: usize = 0;
        proof {
            assert(before + here.take(0) =~= before);
        }
        while j < files[i].windows.len()
            invariant
                i < files@.len(),
                j <= files@[i as int].windows@.len(),
                here == windows_of(files@[i as int].windows@),
                referred(out@) == before + here.take(j as int),
            decreases files@[i as int].windows@.len() - j,
        {
            let ghost now = referred(out@);
            out.push(&files[i].windows[j]);
            proof {
                assert(referred(out@) =~= now.push(here[j as int]));
                assert(before + here.take(j + 1) =~= now.push(here[j as int]));
            }
            j += 1;
        }
        proof {
            assert(here.take(here.len() as int) =~= here);
        }
        i += 1;
    }
    proof {
        assert(views.take(files@.len() as int) =~= views);
    }
    out
}

/// What the detector found in a season.
#[derive(Debug)]
pub struct LocalAudioDetectionResult {
    pub repeated_groups: usize,
    pub candidates: Vec<LocalAudioDetectedSegment>,
}

/// How many files have to share a theme.
pub open spec fn min_repeat_of(provider_settings: Option<Json>) -> nat {
    settings::whole_setting(
        provider_settings,
        "min_repeat_count"@,
        "minRepeatCount"@,
        2,
        20,
        consts::LOCAL_AUDIO_DETECTOR_MIN_REPEAT_COUNT as int,
    ) as nat
}

/// Finds the themes that recur in a season.
pub fn detect_recurring_audio_segments(
    files: &Vec<SeasonAudioFingerprintFile>,
    provider_settings: Option<&JsonValue>,
) -> (r: LocalAudioDetectionResult)
    ensures
        ({
            let all = season_windows(files_of(files@));
            let n = min_repeat_of(json::opt_json(provider_settings));
            &&& themes_of(r.candidates@) == best_themes(all, hashes_of(all), n, files@.len())
            &&& r.repeated_groups == theme_groups(all, hashes_of(all), n, files@.len())
        }),
{
    let min_repeat: usize = local_audio_min_repeat_count(provider_settings);
    let all = refer_all(files);
    let hashes = all_hashes(&all);
    let ghost views = referred(all@);
    let ghost keys = crate::number::texts(hashes@);
    let mut repeated_groups: usize = 0;
    let mut candidates: Vec<LocalAudioDetectedSegment> = Vec::new();
    let mut i: usize = 0;
    proof {
        assert(keys.take(0) =~= Seq::empty());
        assert(themes_of(candidates@) =~= Seq::empty());
    }
    while i < hashes.len()
        invariant
            i <= hashes@.len(),
            repeated_groups <= i,
            views == referred(all@),
            keys == crate::number::texts(hashes@),
            themes_of(candidates@) == best_themes(
                views,
                keys.take(i as int),
                min_repeat as nat,
                files@.len(),
            ),
            repeated_groups == theme_groups(
                views,
                keys.take(i as int),
                min_repeat as nat,
                files@.len(),
            ),
        decreases hashes@.len() - i,
    {
        proof {
            assert(keys.take(i + 1).drop_last() =~= keys.take(i as int));
            assert(keys.take(i + 1).last() == hashes@[i as int]@);
        }
        let hash = hashes[i].as_str();
        let distinct: usize = distinct_media_file_count(&all, hash);
        if distinct >= min_repeat {
            let any = improve_with(&mut candidates, &all, hash, distinct, files.len());
            if any {
                repeated_groups += 1;
            }
        }
        i += 1;
    }
    proof {
        assert(keys.take(hashes@.len() as int) =~= keys);
    }
    LocalAudioDetectionResult { repeated_groups, candidates }
}

/// How many files of a season have to have a fingerprint.
pub open spec fn min_files_of(provider_settings: Option<Json>) -> nat {
    settings::whole_setting(
        provider_settings,
        "min_season_files"@,
        "minSeasonFiles"@,
        2,
        50,
        consts::LOCAL_AUDIO_DETECTOR_MIN_SEASON_FILES as int,
    ) as nat
}

/// How many files have a window.
pub open spec fn fingerprinted(files: Seq<Seq<AudioWindow>>) -> nat
    decreases files.len(),
{
    if files.len() == 0 {
        0
    } else {
        fingerprinted(files.drop_last()) + if files.last().len() > 0 {
            1nat
        } else {
            0
        }
    }
}

fn count_fingerprinted(files: &Vec<SeasonAudioFingerprintFile>) -> (r: usize)
    ensures
        r == fingerprinted(files_of(files@)),
{
    let ghost views = files_of(files@);
    let mut n: usize = 0;
    let mut i: usize = 0;
    proof {
        assert(views.take(0) =~= Seq::empty());
    }
    while i < files.len()
        invariant
            i <= files@.len(),
            n <= i,
            views == files_of(files@),
            n == fingerprinted(views.take(i as int)),
        decreases files@.len() - i,
    {
        proof {
            assert(views.take(i + 1).drop_last() =~= views.take(i as int));
            assert(views.take(i + 1).last() == windows_of(files@[i as int].windows@));
        }
        if files[i].windows.len() > 0 {
            n += 1;
        }
        i += 1;
    }
    proof {
        assert(views.take(files@.len() as int) =~= views);
    }
    n
}

/// What a candidate of the detector says of its evidence.
pub open spec fn theme_json(season_id: Seq<char>, t: Theme) -> Json {
    Json::Object(
        seq![
            ("detector"@, Json::Text("local_audio_recurring"@)),
            ("detector_version"@, Json::Text(consts::LOCAL_AUDIO_DETECTOR_VERSION@)),
            ("hash"@, Json::Text(t.hash)),
            ("label"@, Json::Text(t.label)),
            ("repeat_count"@, Json::Number(JsonNumber::Unsigned(t.repeat_count as u64))),
            ("season_id"@, Json::Text(season_id)),
        ],
    )
}

/// The candidate that a theme is submitted as.
pub open spec fn theme_submission(season_id: Seq<char>, t: Theme) -> Submission {
    Submission {
        media_file_id: t.media_file_id,
        item_type: Some("episode"@),
        item_id: Some(t.episode_id),
        segment_type: t.segment_type,
        start: Quantity::Micros(t.start),
        end: Quantity::Micros(t.end),
        provider_kind: consts::PROVIDER_LOCAL_AUDIO_RECURRING@,
        provider_id: consts::LOCAL_AUDIO_DETECTOR_VERSION@,
        provider_version: Some(consts::LOCAL_AUDIO_DETECTOR_VERSION@),
        confidence: Quantity::Micros(t.confidence),
        identity_strength: "file_fingerprint"@,
        source_payload: Some(theme_json(season_id, t)),
    }
}

fn theme_input(season_id: &str, t: &LocalAudioDetectedSegment) -> (r: SegmentCandidateInput)
    ensures
        r@ == theme_submission(season_id@, t@),
{
    let mut o: Vec<(String, JsonValue)> = Vec::new();
    o.push(("detector".to_owned(), text_value("local_audio_recurring")));
    o.push(("detector_version".to_owned(), text_value(consts::LOCAL_AUDIO_DETECTOR_VERSION)));
    o.push(("hash".to_owned(), text_value(t.hash.as_str())));
    o.push(("label".to_owned(), text_value(t.label)));
    o.push(
        (
            "repeat_count".to_owned(),
            JsonValue::Number(JsonNumber::Unsigned(t.repeat_count as u64)),
        ),
    );
    o.push(("season_id".to_owned(), text_value(season_id)));
    proof {
        json::lemma_view_object(o);
        assert(json::members_of(o@) =~= theme_json(season_id@, t@)->Object_0);
    }
    SegmentCandidateInput {
        media_file_id: t.media_file_id.clone(),
        item_type: Some("episode".to_owned()),
        item_id: Some(t.episode_id.clone()),
        segment_type: t.segment_type.to_owned(),
        start: Quantity::Micros(t.start),
        end: Quantity::Micros(t.end),
        provider_kind: consts::PROVIDER_LOCAL_AUDIO_RECURRING.to_owned(),
        provider_id: consts::LOCAL_AUDIO_DETECTOR_VERSION.to_owned(),
        provider_version: Some(consts::LOCAL_AUDIO_DETECTOR_VERSION.to_owned()),
        confidence: Quantity::Micros(t.confidence),
        identity_strength: "file_fingerprint".to_owned(),
        source_payload: Some(JsonValue::Object(o)),
    }
}

/// Why the detector leaves a season alone: it is switched off, or too few files
/// have a fingerprint.
pub open spec fn audio_skip(provider_settings: Option<Json>, files: Seq<Seq<AudioWindow>>) -> Option<
    Seq<char>,
> {
    if !settings::enabled_setting(provider_settings, false) {
        Some("local_audio_detector_disabled"@)
    } else if fingerprinted(files) < min_files_of(provider_settings) {
        Some("insufficient_fingerprinted_files"@)
    } else {
        None
    }
}

/// The themes of a season.
pub open spec fn season_themes(provider_settings: Option<Json>, files: Seq<Seq<AudioWindow>>) -> Seq<
    Theme,
> {
    let all = season_windows(files);
    if audio_skip(provider_settings, files) is Some {
        Seq::empty()
    } else {
        best_themes(all, hashes_of(all), min_repeat_of(provider_settings), files.len())
    }
}

/// What the detector reports before its candidates are submitted.
pub open spec fn audio_report(
    r: LocalAudioDetectorSummary,
    season_id: Seq<char>,
    provider_settings: Option<Json>,
    files: Seq<Seq<AudioWindow>>,
) -> bool {
    let skip = audio_skip(provider_settings, files);
    let on = settings::enabled_setting(provider_settings, false);
    let all = season_windows(files);
    &&& r.season_id@ == season_id
    &&& r.status@ == if skip is Some {
        "skipped"@
    } else {
        "ok"@
    }
    &&& opt_text(r.reason) == skip
    &&& r.files_seen == if on {
        files.len()
    } else {
        0
    }
    &&& r.files_with_fingerprints == if on {
        fingerprinted(files)
    } else {
        0
    }
    &&& r.repeated_groups == if skip is Some {
        0
    } else {
        theme_groups(all, hashes_of(all), min_repeat_of(provider_settings), files.len())
    }
    &&& r.candidates_submitted == 0
    &&& r.candidates_accepted == 0
    &&& r.candidates_rejected == 0
    &&& r.active_segments == 0
}

fn new_audio_summary(season_id: &str, status: &str, reason: Option<String>, seen: usize, with: usize) -> (r:
    LocalAudioDetectorSummary)
    ensures
        r.season_id@ == season_id@,
        r.status@ == status@,
        r.reason == reason,
        r.files_seen == seen,
        r.files_with_fingerprints == with,
        r.repeated_groups == 0,
        r.candidates_submitted == 0,
        r.candidates_accepted == 0,
        r.candidates_rejected == 0,
        r.active_segments == 0,
{
    LocalAudioDetectorSummary {
        season_id: season_id.to_owned(),
        status: status.to_owned(),
        files_seen: seen,
        files_with_fingerprints: with,
        repeated_groups: 0,
        candidates_submitted: 0,
        candidates_accepted: 0,
        candidates_rejected: 0,
        active_segments: 0,
        reason,
    }
}

/// What the audio detector makes of a season: its report, and the candidates
/// that are then submitted one by one.
pub fn run_local_audio_recurring_detector_for_season(
    season_id: &str,
    provider_settings: Option<&JsonValue>,
    files: &Vec<SeasonAudioFingerprintFile>,
) -> (r: (LocalAudioDetectorSummary, Vec<SegmentCandidateInput>))
    ensures
        audio_report(r.0, season_id@, json::opt_json(provider_settings), files_of(files@)),
        candidate::submissions(r.1@) == season_themes(
            json::opt_json(provider_settings),
            files_of(files@),
        ).map_values(|t: Theme| theme_submission(season_id@, t)),
{
    let mut inputs: Vec<SegmentCandidateInput> = Vec::new();
    proof {
        assert(candidate::submissions(inputs@) =~= Seq::empty());
        assert(Seq::<Theme>::empty().map_values(
            |t: Theme| theme_submission(season_id@, t),
        ) =~= Seq::empty());
    }
    if !provider_settings_enabled(provider_settings) {
        let reason = Some("local_audio_detector_disabled".to_owned());
        return (new_audio_summary(season_id, "skipped", reason, 0, 0), inputs);
    }
    let with: usize = count_fingerprinted(files);
    if with < local_audio_min_season_files(provider_settings) {
        let reason = Some("insufficient_fingerprinted_files".to_owned());
        return (new_audio_summary(season_id, "skipped", reason, files.len(), with), inputs);
    }
    let found = detect_recurring_audio_segments(files, provider_settings);
    let mut summary = new_audio_summary(season_id, "ok", None, files.len(), with);
    summary.repeated_groups = found.repeated_groups;
    let ghost themes = themes_of(found.candidates@);
    let mut i: usize = 0;
    proof {
        assert(themes.take(0) =~= Seq::empty());
    }
    while i < found.candidates.len()
        invariant
            i <= found.candidates@.len(),
            themes == themes_of(found.candidates@),
            candidate::submissions(inputs@) == themes.take(i as int).map_values(
                |t: Theme| theme_submission(season_id@, t),
            ),
        decreases found.candidates@.len() - i,
    {
        let ghost before = candidate::submissions(inputs@);
        let input = theme_input(season_id, &found.candidates[i]);
        inputs.push(input);
        proof {
            assert(candidate::submissions(inputs@) =~= before.push(input@));
            assert(themes.take(i + 1).map_values(|t: Theme| theme_submission(season_id@, t))
                =~= before.push(input@));
        }
        i += 1;
    }
    proof {
        assert(themes.take(found.candidates@.len() as int) =~= themes);
    }
    (summary, inputs)
}

/// Counts a submitted candidate by the state of its validation.
pub fn count_audio_candidate(summary: &mut LocalAudioDetectorSummary, validation_state: &str)
    requires
        old(summary).candidates_submitted < usize::MAX,
        old(summary).candidates_accepted < usize::MAX,
        old(summary).candidates_rejected < usize::MAX,
    ensures
        *final(summary) == (LocalAudioDetectorSummary {
            candidates_submitted: (old(summary).candidates_submitted + 1) as usize,
            candidates_accepted: (old(summary).candidates_accepted + if validation_state@
                == "accepted"@ {
                1int
            } else {
                0
            }) as usize,
            candidates_rejected: (old(summary).candidates_rejected + if validation_state@
                == "accepted"@ {
                0int
            } else {
                1
            }) as usize,
            ..*old(summary)
        }),
{
    summary.candidates_submitted = summary.candidates_submitted + 1;
    if text::str_eq(validation_state, "accepted") {
        summary.candidates_accepted = summary.candidates_accepted + 1;
    } else {
        summary.candidates_rejected = summary.candidates_rejected + 1;
    }
}

/// Whether some themes are in order, with no two of one file and type.
pub open spec fn one_per_place(s: Seq<Theme>) -> bool {
    forall|i: int, j: int|
        0 <= i < j < s.len() ==> theme_before(#[trigger] s[i], #[trigger] s[j])
}

proof fn lemma_theme_order(a: Theme, b: Theme, c: Theme)
    ensures
        theme_before(a, b) || theme_before(b, a) || same_place(a, b),
        !(theme_before(a, b) && same_place(a, b)),
        theme_before(a, b) && theme_before(b, c) ==> theme_before(a, c),
{
    text::lex_order_is_total(a.media_file_id, b.media_file_id);
    text::lex_order_is_total(a.segment_type, b.segment_type);
    if theme_before(a, b) && theme_before(b, c) {
        if a.media_file_id != b.media_file_id && b.media_file_id != c.media_file_id {
            text::lex_order_is_transitive(a.media_file_id, b.media_file_id, c.media_file_id);
            text::lex_order_is_total(a.media_file_id, c.media_file_id);
        } else if a.media_file_id == b.media_file_id && b.media_file_id == c.media_file_id {
            text::lex_order_is_transitive(a.segment_type, b.segment_type, c.segment_type);
        }
    }
}

proof fn lemma_improved_sorted(best: Seq<Theme>, t: Theme)
    requires
        one_per_place(best),
    ensures
        one_per_place(improved(best, t)),
        forall|x: Theme| theme_before(x, t) && (best.len() > 0 ==> theme_before(x, best[0]))
            ==> improved(best, t).len() > 0 && #[trigger] theme_before(x, improved(best, t)[0]),
    decreases best.len(),
{
    let m = improved(best, t);
    if best.len() == 0 {
    } else if same_place(t, best[0]) {
        if t.confidence > best[0].confidence {
            assert forall|i: int, j: int| 0 <= i < j < m.len() implies theme_before(
                #[trigger] m[i],
                #[trigger] m[j],
            ) by {
                assert(m[j] == best[j]);
                if i == 0 {
                    assert(theme_before(best[0], best[j]));
                } else {
                    assert(m[i] == best[i]);
                }
            }
        }
    } else if theme_before(t, best[0]) {
        assert forall|i: int, j: int| 0 <= i < j < m.len() implies theme_before(
            #[trigger] m[i],
            #[trigger] m[j],
        ) by {
            assert(m[j] == best[j - 1]);
            if i == 0 {
                if j > 1 {
                    assert(theme_before(best[0], best[j - 1]));
                    lemma_theme_order(t, best[0], best[j - 1]);
                }
            } else {
                assert(m[i] == best[i - 1]);
            }
        }
    } else {
        let rest = best.drop_first();
        assert forall|i: int, j: int| 0 <= i < j < rest.len() implies theme_before(
            #[trigger] rest[i],
            #[trigger] rest[j],
        ) by {
            assert(theme_before(best[i + 1], best[j + 1]));
        }
        lemma_improved_sorted(rest, t);
        let r = improved(rest, t);
        lemma_theme_order(best[0], t, t);
        assert(theme_before(best[0], t)) by {
            if same_place(best[0], t) {
                assert(same_place(t, best[0]));
            }
        }
        if rest.len() > 0 {
            assert(theme_before(best[0], best[1]));
            assert(rest[0] == best[1]);
        }
        assert(theme_before(best[0], r[0]));
        assert forall|i: int, j: int| 0 <= i < j < m.len() implies theme_before(
            #[trigger] m[i],
            #[trigger] m[j],
        ) by {
            assert(m[j] == r[j - 1]);
            if i == 0 {
                if j > 1 {
                    assert(theme_before(r[0], r[j - 1]));
                    lemma_theme_order(best[0], r[0], r[j - 1]);
                }
            } else {
                assert(m[i] == r[i - 1]);
            }
        }
    }
}

proof fn lemma_improved_by_sorted(best: Seq<Theme>, more: Seq<Theme>)
    requires
        one_per_place(best),
    ensures
        one_per_place(improved_by(best, more)),
    decreases more.len(),
{
    if more.len() > 0 {
        lemma_improved_by_sorted(best, more.drop_last());
        lemma_improved_sorted(improved_by(best, more.drop_last()), more.last());
    }
}

/// Of every file and type there is one theme at most.
pub proof fn one_theme_per_file_and_type(
    all: Seq<AudioWindow>,
    hashes: Seq<Seq<char>>,
    min_repeat: nat,
    files: nat,
)
    ensures
        one_per_place(best_themes(all, hashes, min_repeat, files)),
        forall|i: int, j: int|
            0 <= i < j < best_themes(all, hashes, min_repeat, files).len() ==> !same_place(
                #[trigger] best_themes(all, hashes, min_repeat, files)[i],
                #[trigger] best_themes(all, hashes, min_repeat, files)[j],
            ),
    decreases hashes.len(),
{
    let found = best_themes(all, hashes, min_repeat, files);
    if hashes.len() > 0 {
        one_theme_per_file_and_type(all, hashes.drop_last(), min_repeat, files);
        lemma_improved_by_sorted(
            best_themes(all, hashes.drop_last(), min_repeat, files),
            shared_themes(all, hashes.last(), min_repeat, files),
        );
    }
    assert forall|i: int, j: int| 0 <= i < j < found.len() implies !same_place(
        #[trigger] found[i],
        #[trigger] found[j],
    ) by {
        assert(theme_before(found[i], found[j]));
        lemma_theme_order(found[i], found[j], found[j]);
    }
}

/// Whether a theme rests on enough files and lasts neither too short nor too
/// long.
pub open spec fn theme_sound(t: Theme, all: Seq<AudioWindow>, min_repeat: nat) -> bool {
    &&& t.repeat_count == files_with(all, t.hash).len()
    &&& t.repeat_count >= min_repeat
    &&& 20_000_000 <= t.end - t.start <= 180_000_000
    &&& t.segment_type == "intro"@ || t.segment_type == "outro"@
    &&& consts::LOCAL_AUDIO_DETECTOR_MIN_CONFIDENCE <= t.confidence <= 970_000
}

spec fn all_themes_sound(s: Seq<Theme>, all: Seq<AudioWindow>, min_repeat: nat) -> bool {
    forall|i: int| 0 <= i < s.len() ==> theme_sound(#[trigger] s[i], all, min_repeat)
}

proof fn lemma_share_bounded(repeat_count: nat, files: nat)
    ensures
        820_000 <= theme_confidence(repeat_count, files) <= 970_000,
{
    if files > 0 && repeat_count < files {
        assert(0 <= repeat_count as int * 120_000 / files as int) by (nonlinear_arith)
            requires
                files > 0,
                repeat_count >= 0,
        ;
    }
}

proof fn lemma_themes_with_sound(
    all: Seq<AudioWindow>,
    part: Seq<AudioWindow>,
    h: Seq<char>,
    min_repeat: nat,
    files: nat,
)
    requires
        files_with(all, h).len() >= min_repeat,
    ensures
        all_themes_sound(
            themes_with(part, h, files_with(all, h).len(), files),
            all,
            min_repeat,
        ),
    decreases part.len(),
{
    if part.len() > 0 {
        lemma_themes_with_sound(all, part.drop_last(), h, min_repeat, files);
        lemma_share_bounded(files_with(all, h).len(), files);
    }
}

proof fn lemma_improved_sound(best: Seq<Theme>, t: Theme, all: Seq<AudioWindow>, min_repeat: nat)
    requires
        all_themes_sound(best, all, min_repeat),
        theme_sound(t, all, min_repeat),
    ensures
        all_themes_sound(improved(best, t), all, min_repeat),
    decreases best.len(),
{
    let m = improved(best, t);
    if best.len() > 0 {
        let rest = best.drop_first();
        assert forall|i: int| 0 <= i < rest.len() implies theme_sound(
            #[trigger] rest[i],
            all,
            min_repeat,
        ) by {
            assert(theme_sound(best[i + 1], all, min_repeat));
        }
        lemma_improved_sound(rest, t, all, min_repeat);
        assert(theme_sound(best[0], all, min_repeat));
        assert forall|i: int| 0 <= i < m.len() implies theme_sound(
            #[trigger] m[i],
            all,
            min_repeat,
        ) by {
            if same_place(t, best[0]) {
                if i > 0 {
                    assert(m[i] == best[i]);
                }
            } else if theme_before(t, best[0]) {
                if i > 0 {
                    assert(m[i] == best[i - 1]);
                }
            } else if i > 0 {
                assert(m[i] == improved(rest, t)[i - 1]);
            }
        }
    }
}

proof fn lemma_improved_by_sound(
    best: Seq<Theme>,
    more: Seq<Theme>,
    all: Seq<AudioWindow>,
    min_repeat: nat,
)
    requires
        all_themes_sound(best, all, min_repeat),
        all_themes_sound(more, all, min_repeat),
    ensures
        all_themes_sound(improved_by(best, more), all, min_repeat),
    decreases more.len(),
{
    if more.len() > 0 {
        let rest = more.drop_last();
        assert forall|i: int| 0 <= i < rest.len() implies theme_sound(
            #[trigger] rest[i],
            all,
            min_repeat,
        ) by {
            assert(theme_sound(more[i], all, min_repeat));
        }
        lemma_improved_by_sound(best, rest, all, min_repeat);
        assert(theme_sound(more[more.len() - 1], all, min_repeat));
        lemma_improved_sound(improved_by(best, rest), more.last(), all, min_repeat);
    }
}

/// Every theme is shared by enough files, lasts neither too short nor too long,
/// and is an intro or an outro.
pub proof fn themes_rest_on_enough_files(
    all: Seq<AudioWindow>,
    hashes: Seq<Seq<char>>,
    min_repeat: nat,
    files: nat,
)
    ensures
        forall|i: int|
            0 <= i < best_themes(all, hashes, min_repeat, files).len() ==> theme_sound(
                #[trigger] best_themes(all, hashes, min_repeat, files)[i],
                all,
                min_repeat,
            ),
    decreases hashes.len(),
{
    if hashes.len() > 0 {
        let rest = hashes.drop_last();
        themes_rest_on_enough_files(all, rest, min_repeat, files);
        if files_with(all, hashes.last()).len() >= min_repeat {
            lemma_themes_with_sound(all, all, hashes.last(), min_repeat, files);
        }
        lemma_improved_by_sound(
            best_themes(all, rest, min_repeat, files),
            shared_themes(all, hashes.last(), min_repeat, files),
            all,
            min_repeat,
        );
    }
}

/// The window that the detector makes of one that was fingerprinted.
pub open spec fn window_of_output(
    media_file_id: Seq<char>,
    episode_id: Seq<char>,
    duration: Option<i64>,
    w: LocalAudioFingerprintOutputWindow,
) -> AudioWindow {
    AudioWindow {
        media_file_id,
        episode_id,
        start: w.start,
        end: w.end,
        hash: w.hash@,
        duration,
    }
}

/// Whether a fingerprinted window is sound: it lies in the file, and its
/// fingerprint is in the form that fingerprints have.
pub open spec fn output_sound(w: LocalAudioFingerprintOutputWindow) -> bool {
    &&& 0 <= w.start < w.end
    &&& utf8_length(w.hash@) >= 3
    &&& text::trim_seq(w.hash@) == w.hash@
    &&& text::lower_seq(w.hash@) == w.hash@
}

proof fn lemma_window_reads_back(
    media_file_id: Seq<char>,
    episode_id: Seq<char>,
    duration: Option<i64>,
    w: LocalAudioFingerprintOutputWindow,
)
    requires
        output_sound(w),
    ensures
        window_of(media_file_id, episode_id, duration, fingerprint::window_json(w)) == Some(
            window_of_output(media_file_id, episode_id, duration, w),
        ),
{
    reveal_strlit("end_seconds");
    reveal_strlit("hash");
    reveal_strlit("start_seconds");
    assert("end_seconds"@.len() == 11 && "hash"@.len() == 4 && "start_seconds"@.len() == 13);
    let members = fingerprint::window_json(w)->Object_0;
    json::lemma_lookup_at(members, "end_seconds"@, 0);
    json::lemma_lookup_at(members, "hash"@, 1);
    json::lemma_lookup_at(members, "start_seconds"@, 2);
    assert(hash_names()[0] == "hash"@);
    assert(window_start_names()[0] == "start_seconds"@);
    assert(window_end_names()[0] == "end_seconds"@);
}

proof fn lemma_windows_read_back(
    media_file_id: Seq<char>,
    episode_id: Seq<char>,
    duration: Option<i64>,
    windows: Seq<LocalAudioFingerprintOutputWindow>,
)
    requires
        forall|i: int| 0 <= i < windows.len() ==> output_sound(#[trigger] windows[i]),
    ensures
        windows_in(
            media_file_id,
            episode_id,
            duration,
            windows.map_values(|w: LocalAudioFingerprintOutputWindow| fingerprint::window_json(w)),
        ) == windows.map_values(
            |w: LocalAudioFingerprintOutputWindow|
                window_of_output(media_file_id, episode_id, duration, w),
        ),
    decreases windows.len(),
{
    let kept = windows.map_values(
        |w: LocalAudioFingerprintOutputWindow| fingerprint::window_json(w),
    );
    let read = windows.map_values(
        |w: LocalAudioFingerprintOutputWindow|
            window_of_output(media_file_id, episode_id, duration, w),
    );
    if windows.len() > 0 {
        let rest = windows.drop_last();
        assert forall|i: int| 0 <= i < rest.len() implies output_sound(#[trigger] rest[i]) by {
            assert(output_sound(windows[i]));
        }
        lemma_windows_read_back(media_file_id, episode_id, duration, rest);
        assert(kept.drop_last() =~= rest.map_values(
            |w: LocalAudioFingerprintOutputWindow| fingerprint::window_json(w),
        ));
        assert(output_sound(windows[windows.len() - 1]));
        lemma_window_reads_back(media_file_id, episode_id, duration, windows.last());
        assert(read =~= rest.map_values(
            |w: LocalAudioFingerprintOutputWindow|
                window_of_output(media_file_id, episode_id, duration, w),
        ).push(window_of_output(media_file_id, episode_id, duration, windows.last())));
    } else {
        assert(read =~= Seq::empty());
    }
}

/// What is kept of the windows of a file is what the detector reads of it: every
/// window with its times and its fingerprint, in their order.
pub proof fn kept_windows_read_back(
    media_file_id: Seq<char>,
    episode_id: Seq<char>,
    duration: Option<i64>,
    duration_seconds: i64,
    windows: Seq<LocalAudioFingerprintOutputWindow>,
)
    requires
        forall|i: int| 0 <= i < windows.len() ==> output_sound(#[trigger] windows[i]),
    ensures
        windows_in(
            media_file_id,
            episode_id,
            duration,
            visual::payload_list(
                fingerprint::fingerprint_json(duration_seconds, windows),
                window_list_names(),
            ),
        ) == windows.map_values(
            |w: LocalAudioFingerprintOutputWindow|
                window_of_output(media_file_id, episode_id, duration, w),
        ),
{
    let members = fingerprint::fingerprint_json(duration_seconds, windows)->Object_0;
    reveal_strlit("channel_layout");
    reveal_strlit("detector");
    reveal_strlit("duration_seconds");
    reveal_strlit("sample_rate_hz");
    reveal_strlit("step_seconds");
    reveal_strlit("version");
    reveal_strlit("window_lengths_seconds");
    reveal_strlit("windows");
    assert("channel_layout"@.len() == 14 && "detector"@.len() == 8 && "duration_seconds"@.len()
        == 16 && "sample_rate_hz"@.len() == 14 && "step_seconds"@.len() == 12 && "version"@[0]
        == 'v' && "window_lengths_seconds"@.len() == 22 && "windows"@.len() == 7 && "windows"@[0]
        == 'w');
    json::lemma_lookup_at(members, "windows"@, 7);
    assert(window_list_names()[0] == "windows"@);
    lemma_windows_read_back(media_file_id, episode_id, duration, windows);
}

/// Whether some themes hold one of a file and a type that is at least so sure.
spec fn has_theme(s: Seq<Theme>, file: Seq<char>, kind: Seq<char>, confidence: i64) -> bool {
    exists|k: int|
        0 <= k < s.len() && (#[trigger] s[k]).media_file_id == file && s[k].segment_type == kind
            && s[k].confidence >= confidence
}

proof fn lemma_improved_has(best: Seq<Theme>, t: Theme)
    ensures
        has_theme(improved(best, t), t.media_file_id, t.segment_type, t.confidence),
        forall|file: Seq<char>, kind: Seq<char>, confidence: i64|
            has_theme(best, file, kind, confidence) ==> #[trigger] has_theme(
                improved(best, t),
                file,
                kind,
                confidence,
            ),
    decreases best.len(),
{
    let m = improved(best, t);
    if best.len() == 0 {
        assert(m[0] == t);
    } else {
        let rest = best.drop_first();
        let r = improved(rest, t);
        lemma_improved_has(rest, t);
        if same_place(t, best[0]) {
            assert(m[0] == t || m[0] == best[0]);
            assert(m[0].media_file_id == t.media_file_id && m[0].segment_type == t.segment_type);
        } else if theme_before(t, best[0]) {
            assert(m[0] == t);
        } else {
            let k = choose|k: int|
                0 <= k < r.len() && (#[trigger] r[k]).media_file_id == t.media_file_id
                    && r[k].segment_type == t.segment_type && r[k].confidence >= t.confidence;
            assert(m[k + 1] == r[k]);
        }
        assert forall|file: Seq<char>, kind: Seq<char>, confidence: i64|
            has_theme(best, file, kind, confidence) implies #[trigger] has_theme(
            m,
            file,
            kind,
            confidence,
        ) by {
            let k = choose|k: int|
                0 <= k < best.len() && (#[trigger] best[k]).media_file_id == file
                    && best[k].segment_type == kind && best[k].confidence >= confidence;
            if same_place(t, best[0]) {
                if k > 0 {
                    assert(m[k] == best[k]);
                } else {
                    assert(m[0].media_file_id == file);
                }
            } else if theme_before(t, best[0]) {
                assert(m[k + 1] == best[k]);
            } else if k == 0 {
                assert(m[0] == best[0]);
            } else {
                assert(rest[k - 1] == best[k]);
                assert(has_theme(rest, file, kind, confidence));
                assert(has_theme(r, file, kind, confidence));
                let q = choose|q: int|
                    0 <= q < r.len() && (#[trigger] r[q]).media_file_id == file
                        && r[q].segment_type == kind && r[q].confidence >= confidence;
                assert(m[q + 1] == r[q]);
            }
        }
    }
}

proof fn lemma_improved_by_has(best: Seq<Theme>, more: Seq<Theme>)
    ensures
        forall|k: int|
            0 <= k < more.len() ==> has_theme(
                improved_by(best, more),
                (#[trigger] more[k]).media_file_id,
                more[k].segment_type,
                more[k].confidence,
            ),
        forall|file: Seq<char>, kind: Seq<char>, confidence: i64|
            has_theme(best, file, kind, confidence) ==> #[trigger] has_theme(
                improved_by(best, more),
                file,
                kind,
                confidence,
            ),
    decreases more.len(),
{
    if more.len() > 0 {
        let rest = more.drop_last();
        lemma_improved_by_has(best, rest);
        lemma_improved_has(improved_by(best, rest), more.last());
        assert forall|k: int| 0 <= k < more.len() implies has_theme(
            improved_by(best, more),
            (#[trigger] more[k]).media_file_id,
            more[k].segment_type,
            more[k].confidence,
        ) by {
            if k < rest.len() {
                assert(rest[k] == more[k]);
                assert(has_theme(
                    improved_by(best, rest),
                    rest[k].media_file_id,
                    rest[k].segment_type,
                    rest[k].confidence,
                ));
            }
        }
    }
}

proof fn lemma_best_has(
    all: Seq<AudioWindow>,
    hashes: Seq<Seq<char>>,
    min_repeat: nat,
    files: nat,
    q: int,
)
    requires
        0 <= q < hashes.len(),
    ensures
        ({
            let found = shared_themes(all, hashes[q], min_repeat, files);
            forall|k: int|
                0 <= k < found.len() ==> has_theme(
                    best_themes(all, hashes, min_repeat, files),
                    (#[trigger] found[k]).media_file_id,
                    found[k].segment_type,
                    found[k].confidence,
                )
        }),
    decreases hashes.len(),
{
    let rest = hashes.drop_last();
    let before = best_themes(all, rest, min_repeat, files);
    lemma_improved_by_has(before, shared_themes(all, hashes.last(), min_repeat, files));
    if q < rest.len() {
        lemma_best_has(all, rest, min_repeat, files, q);
        let found = shared_themes(all, hashes[q], min_repeat, files);
        assert(rest[q] == hashes[q]);
        assert forall|k: int| 0 <= k < found.len() implies has_theme(
            best_themes(all, hashes, min_repeat, files),
            (#[trigger] found[k]).media_file_id,
            found[k].segment_type,
            found[k].confidence,
        ) by {
            assert(has_theme(
                before,
                found[k].media_file_id,
                found[k].segment_type,
                found[k].confidence,
            ));
        }
    }
}

proof fn lemma_with_hash_has(hashes: Seq<Seq<char>>, h: Seq<char>)
    ensures
        with_hash(hashes, h).contains(h),
        forall|x: Seq<char>| hashes.contains(x) ==> #[trigger] with_hash(hashes, h).contains(x),
        forall|x: Seq<char>| #[trigger]
            with_hash(hashes, h).contains(x) ==> x == h || hashes.contains(x),
    decreases hashes.len(),
{
    let m = with_hash(hashes, h);
    if hashes.len() == 0 {
        assert(m[0] == h);
    } else if hashes[0] == h {
        assert(m[0] == h);
    } else if text::lex_lt(h, hashes[0]) {
        assert(m[0] == h);
        assert forall|x: Seq<char>| hashes.contains(x) implies #[trigger] m.contains(x) by {
            let i = choose|i: int| 0 <= i < hashes.len() && hashes[i] == x;
            assert(m[i + 1] == x);
        }
        assert forall|x: Seq<char>| #[trigger] m.contains(x) implies x == h || hashes.contains(
            x,
        ) by {
            let i = choose|i: int| 0 <= i < m.len() && m[i] == x;
            if i > 0 {
                assert(hashes[i - 1] == x);
            }
        }
    } else {
        let rest = hashes.drop_first();
        let r = with_hash(rest, h);
        lemma_with_hash_has(rest, h);
        let q = choose|q: int| 0 <= q < r.len() && r[q] == h;
        assert(m[q + 1] == h);
        assert forall|x: Seq<char>| hashes.contains(x) implies #[trigger] m.contains(x) by {
            let i = choose|i: int| 0 <= i < hashes.len() && hashes[i] == x;
            if i == 0 {
                assert(m[0] == x);
            } else {
                assert(rest[i - 1] == x);
                assert(rest.contains(x));
                assert(r.contains(x));
                let j = choose|j: int| 0 <= j < r.len() && r[j] == x;
                assert(m[j + 1] == x);
            }
        }
        assert forall|x: Seq<char>| #[trigger] m.contains(x) implies x == h || hashes.contains(
            x,
        ) by {
            let i = choose|i: int| 0 <= i < m.len() && m[i] == x;
            if i == 0 {
                assert(hashes[0] == x);
            } else {
                assert(r[i - 1] == x);
                assert(r.contains(x));
                if x != h {
                    let j = choose|j: int| 0 <= j < rest.len() && rest[j] == x;
                    assert(hashes[j + 1] == x);
                }
            }
        }
    }
}

proof fn lemma_hashes_has(all: Seq<AudioWindow>, i: int)
    requires
        0 <= i < all.len(),
    ensures
        hashes_of(all).contains(all[i].hash),
    decreases all.len(),
{
    lemma_with_hash_has(hashes_of(all.drop_last()), all.last().hash);
    if i < all.len() - 1 {
        lemma_hashes_has(all.drop_last(), i);
    }
}

/// Whether a file has a window with a fingerprint.
spec fn in_file(all: Seq<AudioWindow>, h: Seq<char>, id: Seq<char>) -> bool {
    exists|i: int| 0 <= i < all.len() && (#[trigger] all[i]).hash == h && all[i].media_file_id == id
}

/// The files with a fingerprint are those of its windows, each once.
proof fn lemma_files_with(all: Seq<AudioWindow>, h: Seq<char>)
    ensures
        files_with(all, h).no_duplicates(),
        forall|id: Seq<char>| #[trigger] files_with(all, h).contains(id) <==> in_file(all, h, id),
    decreases all.len(),
{
    let m = files_with(all, h);
    if all.len() > 0 {
        let part = all.drop_last();
        let rest = files_with(part, h);
        lemma_files_with(part, h);
        let last = all.last();
        let more = last.hash == h && !rest.contains(last.media_file_id);
        if more {
            assert(m == rest.push(last.media_file_id));
            assert(m[rest.len() as int] == last.media_file_id);
        } else {
            assert(m == rest);
        }
        assert forall|id: Seq<char>| #[trigger] m.contains(id) <==> in_file(all, h, id) by {
            assert(rest.contains(id) <==> in_file(part, h, id));
            if in_file(part, h, id) {
                let i = choose|i: int|
                    0 <= i < part.len() && (#[trigger] part[i]).hash == h && part[i].media_file_id
                        == id;
                assert(all[i] == part[i]);
                let k = choose|k: int| 0 <= k < rest.len() && rest[k] == id;
                assert(m[k] == id);
            } else {
                if m.contains(id) {
                    let k = choose|k: int| 0 <= k < m.len() && m[k] == id;
                    if k < rest.len() {
                        assert(rest[k] == id);
                    }
                    assert(all[all.len() - 1].media_file_id == id);
                }
                if in_file(all, h, id) {
                    let i = choose|i: int|
                        0 <= i < all.len() && (#[trigger] all[i]).hash == h && all[i].media_file_id
                            == id;
                    if i < part.len() {
                        assert(part[i] == all[i]);
                    }
                    assert(i == all.len() - 1);
                    if !more {
                        assert(rest.contains(last.media_file_id));
                        assert(in_file(part, h, last.media_file_id));
                    }
                }
            }
        }
    }
}

/// So many different files that share a fingerprint are counted.
proof fn lemma_files_counted(all: Seq<AudioWindow>, h: Seq<char>, ids: Seq<Seq<char>>)
    requires
        ids.no_duplicates(),
        forall|k: int| 0 <= k < ids.len() ==> in_file(all, h, #[trigger] ids[k]),
    ensures
        files_with(all, h).len() >= ids.len(),
{
    let m = files_with(all, h);
    lemma_files_with(all, h);
    ids.unique_seq_to_set();
    m.unique_seq_to_set();
    assert forall|x: Seq<char>| ids.to_set().contains(x) implies m.to_set().contains(x) by {
        let k = choose|k: int| 0 <= k < ids.len() && ids[k] == x;
        assert(in_file(all, h, ids[k]));
        assert(m.contains(x));
    }
    vstd::set_lib::lemma_len_subset(ids.to_set(), m.to_set());
}

proof fn lemma_themes_with_has(
    part: Seq<AudioWindow>,
    h: Seq<char>,
    n: nat,
    files: nat,
    i: int,
)
    requires
        0 <= i < part.len(),
        part[i].hash == h,
        theme_of(part[i], h, n, files) is Some,
    ensures
        themes_with(part, h, n, files).contains(theme_of(part[i], h, n, files)->0),
    decreases part.len(),
{
    let rest = themes_with(part.drop_last(), h, n, files);
    let m = themes_with(part, h, n, files);
    let t = theme_of(part[i], h, n, files)->0;
    if i < part.len() - 1 {
        lemma_themes_with_has(part.drop_last(), h, n, files, i);
        let k = choose|k: int| 0 <= k < rest.len() && rest[k] == t;
        assert(m[k] == t);
    } else {
        assert(m[rest.len() as int] == t);
    }
}

/// The share of the files that a theme's confidence shows.
proof fn lemma_share(n: nat, files: nat)
    requires
        0 < files,
    ensures
        ({
            let c = theme_confidence(n, files) - 820_000;
            &&& n <= files ==> c * files <= 120_000 * n < (c + 1) * files
            &&& n >= files ==> c == 120_000
            &&& 0 <= c <= 120_000
        }),
{
    if n < files {
        let q = n as int * 120_000 / files as int;
        assert(q * files <= 120_000 * n < (q + 1) * files && 0 <= q <= 120_000) by (nonlinear_arith)
            requires
                0 <= n < files,
                q == n as int * 120_000 / files as int,
        ;
    } else {
        assert(120_000 * files <= 120_000 * n) by (nonlinear_arith)
            requires
                n >= files,
        ;
        assert(n == files ==> 120_000 * n < 120_001 * files) by (nonlinear_arith)
            requires
                0 < files,
        ;
    }
}

/// A window whose fingerprint is in enough different files, that lasts between 20
/// seconds and three minutes and starts early, gives its file an intro; one that
/// starts in the second half, and not early, gives it an outro. The theme of the file
/// is at least as sure as the share of the files that have the fingerprint. So a file
/// with a shared opening and a shared ending has both.
pub proof fn shared_windows_give_their_file_a_theme(
    provider_settings: Option<Json>,
    files: Seq<Seq<AudioWindow>>,
    f: int,
    w: int,
    ids: Seq<Seq<char>>,
)
    requires
        audio_skip(provider_settings, files) is None,
        0 <= f < files.len(),
        0 <= w < files[f].len(),
        ids.no_duplicates(),
        min_repeat_of(provider_settings) <= ids.len() <= files.len(),
        forall|k: int|
            0 <= k < ids.len() ==> exists|a: int, b: int|
                0 <= a < files.len() && 0 <= b < files[a].len() && (#[trigger] files[a][b]).hash
                    == files[f][w].hash && files[a][b].media_file_id == #[trigger] ids[k],
    ensures
        ({
            let x = files[f][w];
            let early = x.start <= 600_000_000 && (x.duration is None || x.duration->0 <= 0
                || x.start * 100 <= x.duration->0 * 35);
            let late = x.duration is Some && x.duration->0 > 0 && x.start * 2 >= x.duration->0;
            let found = season_themes(provider_settings, files);
            &&& 20_000_000 <= x.end - x.start <= 180_000_000 && early ==> exists|k: int|
                0 <= k < found.len() && (#[trigger] found[k]).media_file_id == x.media_file_id
                    && found[k].segment_type == "intro"@ && (found[k].confidence - 820_000 + 1)
                    * files.len() > 120_000 * ids.len()
            &&& 20_000_000 <= x.end - x.start <= 180_000_000 && late && !early ==> exists|k: int|
                0 <= k < found.len() && (#[trigger] found[k]).media_file_id == x.media_file_id
                    && found[k].segment_type == "outro"@ && (found[k].confidence - 820_000 + 1)
                    * files.len() > 120_000 * ids.len()
        }),
{
    let x = files[f][w];
    let all = season_windows(files);
    let hashes = hashes_of(all);
    let min_repeat = min_repeat_of(provider_settings);
    let at = lemma_season_window(files, f, w);
    lemma_hashes_has(all, at);
    let q = choose|q: int| 0 <= q < hashes.len() && hashes[q] == x.hash;
    assert forall|k: int| 0 <= k < ids.len() implies in_file(all, x.hash, #[trigger] ids[k]) by {
        let (a, b) = choose|a: int, b: int|
            0 <= a < files.len() && 0 <= b < files[a].len() && (#[trigger] files[a][b]).hash
                == x.hash && files[a][b].media_file_id == ids[k];
        let i = lemma_season_window(files, a, b);
        assert(all[i].hash == x.hash);
    }
    lemma_files_counted(all, x.hash, ids);
    let n = files_with(all, x.hash).len();
    lemma_best_has(all, hashes, min_repeat, files.len(), q);
    lemma_share(n, files.len());
    lemma_share(ids.len(), files.len());
    if theme_of(x, x.hash, n, files.len()) is Some {
        lemma_themes_with_has(all, x.hash, n, files.len(), at);
        let t = theme_of(x, x.hash, n, files.len())->0;
        let shared = shared_themes(all, x.hash, min_repeat, files.len());
        let k = choose|k: int| 0 <= k < shared.len() && shared[k] == t;
        let found = season_themes(provider_settings, files);
        assert(found == best_themes(all, hashes, min_repeat, files.len()));
        assert(has_theme(found, t.media_file_id, t.segment_type, t.confidence));
        let p = choose|p: int|
            0 <= p < found.len() && (#[trigger] found[p]).media_file_id == t.media_file_id
                && found[p].segment_type == t.segment_type && found[p].confidence >= t.confidence;
        let c = t.confidence - 820_000;
        let d = found[p].confidence - 820_000;
        let m = files.len();
        let few = ids.len();
        assert((d + 1) * m > 120_000 * few) by (nonlinear_arith)
            requires
                c <= d,
                0 < m,
                few <= n,
                few <= m,
                n <= m ==> 120_000 * n < (c + 1) * m,
                n >= m ==> c == 120_000,
        ;
    }
}

/// Where a window of a file is among those of the season.
proof fn lemma_season_window(files: Seq<Seq<AudioWindow>>, f: int, w: int) -> (at: int)
    requires
        0 <= f < files.len(),
        0 <= w < files[f].len(),
    ensures
        0 <= at < season_windows(files).len(),
        season_windows(files)[at] == files[f][w],
    decreases files.len(),
{
    let rest = season_windows(files.drop_last());
    if f < files.len() - 1 {
        let at = lemma_season_window(files.drop_last(), f, w);
        assert(season_windows(files)[at] == rest[at]);
        at
    } else {
        assert(season_windows(files)[rest.len() + w] == files[f][w]);
        rest.len() + w
    }
}

/// Which window of which file one of the season is.
proof fn lemma_window_of_season(files: Seq<Seq<AudioWindow>>, at: int) -> (r: (int, int))
    requires
        0 <= at < season_windows(files).len(),
    ensures
        0 <= r.0 < files.len(),
        0 <= r.1 < files[r.0].len(),
        season_windows(files)[at] == files[r.0][r.1],
    decreases files.len(),
{
    let rest = season_windows(files.drop_last());
    if at < rest.len() {
        let r = lemma_window_of_season(files.drop_last(), at);
        assert(season_windows(files)[at] == rest[at]);
        r
    } else {
        (files.len() - 1, at - rest.len())
    }
}

/// Whether a theme stands for one of some windows.
spec fn from_window(t: Theme, all: Seq<AudioWindow>, min_repeat: nat, files: nat) -> bool {
    exists|i: int|
        0 <= i < all.len() && files_with(all, (#[trigger] all[i]).hash).len() >= min_repeat
            && theme_of(all[i], all[i].hash, files_with(all, all[i].hash).len(), files) == Some(t)
}

proof fn lemma_themes_with_from(
    all: Seq<AudioWindow>,
    part: int,
    h: Seq<char>,
    min_repeat: nat,
    files: nat,
    k: int,
)
    requires
        0 <= part <= all.len(),
        files_with(all, h).len() >= min_repeat,
        0 <= k < themes_with(all.take(part), h, files_with(all, h).len(), files).len(),
    ensures
        from_window(
            themes_with(all.take(part), h, files_with(all, h).len(), files)[k],
            all,
            min_repeat,
            files,
        ),
    decreases part,
{
    let n = files_with(all, h).len();
    if part > 0 {
        assert(all.take(part).drop_last() =~= all.take(part - 1));
        let rest = themes_with(all.take(part - 1), h, n, files);
        assert(all.take(part).last() == all[part - 1]);
        if k < rest.len() {
            lemma_themes_with_from(all, part - 1, h, min_repeat, files, k);
        } else {
            assert(all[part - 1].hash == h);
        }
    }
}

proof fn lemma_improved_from(best: Seq<Theme>, t: Theme, k: int)
    requires
        0 <= k < improved(best, t).len(),
    ensures
        improved(best, t)[k] == t || best.contains(improved(best, t)[k]),
    decreases best.len(),
{
    let m = improved(best, t);
    if best.len() > 0 {
        let rest = best.drop_first();
        if same_place(t, best[0]) {
            if k > 0 {
                assert(m[k] == best[k]);
            } else {
                assert(m[0] == t || m[0] == best[0]);
            }
        } else if theme_before(t, best[0]) {
            if k > 0 {
                assert(m[k] == best[k - 1]);
            }
        } else if k == 0 {
            assert(m[0] == best[0]);
        } else {
            lemma_improved_from(rest, t, k - 1);
            assert(m[k] == improved(rest, t)[k - 1]);
            if m[k] != t {
                let j = choose|j: int| 0 <= j < rest.len() && rest[j] == m[k];
                assert(best[j + 1] == m[k]);
            }
        }
    }
}

proof fn lemma_improved_by_from(best: Seq<Theme>, more: Seq<Theme>, k: int)
    requires
        0 <= k < improved_by(best, more).len(),
    ensures
        more.contains(improved_by(best, more)[k]) || best.contains(improved_by(best, more)[k]),
    decreases more.len(),
{
    if more.len() > 0 {
        let rest = more.drop_last();
        let before = improved_by(best, rest);
        let y = improved_by(best, more)[k];
        lemma_improved_from(before, more.last(), k);
        if y == more.last() {
            assert(more[more.len() - 1] == y);
        } else {
            let j = choose|j: int| 0 <= j < before.len() && before[j] == y;
            lemma_improved_by_from(best, rest, j);
            if rest.contains(y) {
                let i = choose|i: int| 0 <= i < rest.len() && rest[i] == y;
                assert(more[i] == y);
            }
        }
    } else {
        assert(best[k] == improved_by(best, more)[k]);
    }
}

proof fn lemma_best_from(
    all: Seq<AudioWindow>,
    hashes: Seq<Seq<char>>,
    min_repeat: nat,
    files: nat,
    k: int,
)
    requires
        0 <= k < best_themes(all, hashes, min_repeat, files).len(),
    ensures
        from_window(best_themes(all, hashes, min_repeat, files)[k], all, min_repeat, files),
    decreases hashes.len(),
{
    if hashes.len() > 0 {
        let before = best_themes(all, hashes.drop_last(), min_repeat, files);
        let more = shared_themes(all, hashes.last(), min_repeat, files);
        let y = best_themes(all, hashes, min_repeat, files)[k];
        lemma_improved_by_from(before, more, k);
        if more.contains(y) {
            let i = choose|i: int| 0 <= i < more.len() && more[i] == y;
            assert(all.take(all.len() as int) =~= all);
            lemma_themes_with_from(all, all.len() as int, hashes.last(), min_repeat, files, i);
        } else {
            let j = choose|j: int| 0 <= j < before.len() && before[j] == y;
            lemma_best_from(all, hashes.drop_last(), min_repeat, files, j);
        }
    }
}

/// Every theme is a window of its file and episode, with its times and its
/// fingerprint, that lasts between 20 seconds and three minutes. An intro starts
/// within ten minutes and, where the length is known, in the first 35 hundredths; an
/// outro starts in the second half of a file of known length, and is no intro. Its
/// fingerprint is in as many different files as the theme says, which are enough, and
/// its confidence is 820 thousandths and 120 more by their share.
pub proof fn themes_are_shared_windows(
    provider_settings: Option<Json>,
    files: Seq<Seq<AudioWindow>>,
    k: int,
) -> (r: (int, int, Seq<Seq<char>>))
    requires
        0 <= k < season_themes(provider_settings, files).len(),
    ensures
        ({
            let t = season_themes(provider_settings, files)[k];
            let x = files[r.0][r.1];
            let early = x.start <= 600_000_000 && (x.duration is None || x.duration->0 <= 0
                || x.start * 100 <= x.duration->0 * 35);
            &&& 0 <= r.0 < files.len() && 0 <= r.1 < files[r.0].len()
            &&& t.media_file_id == x.media_file_id && t.episode_id == x.episode_id
            &&& t.start == x.start && t.end == x.end && t.hash == x.hash
            &&& 20_000_000 <= x.end - x.start <= 180_000_000
            &&& early ==> t.segment_type == "intro"@ && t.label == "Local audio intro"@
            &&& !early ==> t.segment_type == "outro"@ && t.label == "Local audio outro"@
                && x.duration is Some && 0 < x.duration->0 <= x.start * 2
            &&& r.2.no_duplicates() && r.2.len() == t.repeat_count
            &&& r.2.len() >= min_repeat_of(provider_settings)
            &&& forall|j: int|
                0 <= j < r.2.len() ==> exists|a: int, b: int|
                    0 <= a < files.len() && 0 <= b < files[a].len() && (
                    #[trigger] files[a][b]).hash == x.hash && files[a][b].media_file_id
                        == #[trigger] r.2[j]
            &&& t.repeat_count >= files.len() ==> t.confidence == 940_000
            &&& t.repeat_count <= files.len() ==> (t.confidence - 820_000) * files.len() <= 120_000
                * t.repeat_count < (t.confidence - 820_000 + 1) * files.len()
        }),
{
    let all = season_windows(files);
    let min_repeat = min_repeat_of(provider_settings);
    lemma_best_from(all, hashes_of(all), min_repeat, files.len(), k);
    let t = season_themes(provider_settings, files)[k];
    let i = choose|i: int|
        0 <= i < all.len() && files_with(all, (#[trigger] all[i]).hash).len() >= min_repeat
            && theme_of(all[i], all[i].hash, files_with(all, all[i].hash).len(), files.len())
            == Some(t);
    let (f, w) = lemma_window_of_season(files, i);
    let ids = files_with(all, all[i].hash);
    lemma_files_with(all, all[i].hash);
    lemma_share(ids.len(), files.len());
    assert forall|j: int| 0 <= j < ids.len() implies exists|a: int, b: int|
        0 <= a < files.len() && 0 <= b < files[a].len() && (#[trigger] files[a][b]).hash
            == all[i].hash && files[a][b].media_file_id == #[trigger] ids[j] by {
        assert(ids.contains(ids[j]));
        assert(in_file(all, all[i].hash, ids[j]));
        let q = choose|q: int|
            0 <= q < all.len() && (#[trigger] all[q]).hash == all[i].hash && all[q].media_file_id
                == ids[j];
        let (a, b) = lemma_window_of_season(files, q);
        assert(files[a][b].hash == all[i].hash);
    }
    (f, w, ids)
}

/// No two themes of a season are of one file and one type.
pub proof fn themes_differ_in_file_or_type(
    provider_settings: Option<Json>,
    files: Seq<Seq<AudioWindow>>,
    i: int,
    j: int,
)
    requires
        0 <= i < j < season_themes(provider_settings, files).len(),
    ensures
        ({
            let s = season_themes(provider_settings, files);
            s[i].media_file_id != s[j].media_file_id || s[i].segment_type != s[j].segment_type
        }),
{
    let all = season_windows(files);
    one_theme_per_file_and_type(
        all,
        hashes_of(all),
        min_repeat_of(provider_settings),
        files.len(),
    );
}

/// A theme is submitted for its episode with its own times, type and confidence, as
/// known by the file itself.
pub proof fn themes_are_submitted_as_they_are(season_id: Seq<char>, t: Theme)
    ensures
        ({
            let s = theme_submission(season_id, t);
            &&& s.media_file_id == t.media_file_id
            &&& s.item_type == Some("episode"@) && s.item_id == Some(t.episode_id)
            &&& s.segment_type == t.segment_type
            &&& s.start == Quantity::Micros(t.start) && s.end == Quantity::Micros(t.end)
            &&& s.confidence == Quantity::Micros(t.confidence)
            &&& s.provider_kind == "local_audio_recurring"@
            &&& s.identity_strength == "file_fingerprint"@
            &&& json::json_get(s.source_payload->0, "hash"@) == Some(Json::Text(t.hash))
            &&& json::json_get(s.source_payload->0, "label"@) == Some(Json::Text(t.label))
            &&& json::json_get(s.source_payload->0, "season_id"@) == Some(Json::Text(season_id))
        }),
{
    let members = theme_json(season_id, t)->Object_0;
    reveal_strlit("detector");
    reveal_strlit("detector_version");
    reveal_strlit("hash");
    reveal_strlit("label");
    reveal_strlit("repeat_count");
    reveal_strlit("season_id");
    assert("detector"@.len() == 8 && "detector_version"@.len() == 16 && "hash"@.len() == 4
        && "label"@.len() == 5 && "repeat_count"@.len() == 12 && "season_id"@.len() == 9);
    json::lemma_lookup_at(members, "hash"@, 2);
    json::lemma_lookup_at(members, "label"@, 3);
    json::lemma_lookup_at(members, "season_id"@, 5);
}

/// The detector finds nothing where it is switched off, which it is unless it is
/// switched on, or where fewer files have a window than it asks for; else its report
/// is no refusal.
pub proof fn few_fingerprints_give_no_themes(
    provider_settings: Option<Json>,
    files: Seq<Seq<AudioWindow>>,
    with: Seq<int>,
)
    requires
        with.no_duplicates(),
        forall|k: int| 0 <= k < with.len() ==> 0 <= #[trigger] with[k] < files.len(),
        forall|f: int|
            0 <= f < files.len() ==> ((#[trigger] files[f]).len() > 0 <==> with.contains(f)),
    ensures
        provider_settings is None ==> audio_skip(provider_settings, files) == Some(
            "local_audio_detector_disabled"@,
        ),
        audio_skip(provider_settings, files) is Some ==> season_themes(
            provider_settings,
            files,
        ).len() == 0,
        audio_skip(provider_settings, files) == Some("insufficient_fingerprinted_files"@) ==> (
        with.len() < min_files_of(provider_settings)),
        audio_skip(provider_settings, files) is None ==> with.len() >= min_files_of(
            provider_settings,
        ),
{
    lemma_fingerprinted(files, with);
    reveal_strlit("insufficient_fingerprinted_files");
    reveal_strlit("local_audio_detector_disabled");
    assert("insufficient_fingerprinted_files"@.len() == 32);
    assert("local_audio_detector_disabled"@.len() == 29);
}

proof fn lemma_fingerprinted(files: Seq<Seq<AudioWindow>>, with: Seq<int>)
    requires
        with.no_duplicates(),
        forall|k: int| 0 <= k < with.len() ==> 0 <= #[trigger] with[k] < files.len(),
        forall|f: int|
            0 <= f < files.len() ==> ((#[trigger] files[f]).len() > 0 <==> with.contains(f)),
    ensures
        fingerprinted(files) == with.len(),
    decreases files.len(),
{
    if files.len() == 0 {
        if with.len() > 0 {
            assert(0 <= with[0] < files.len());
        }
    } else {
        let last = files.len() - 1;
        let rest = files.drop_last();
        if files[last].len() > 0 {
            assert(with.contains(last));
            let p = choose|p: int| 0 <= p < with.len() && with[p] == last;
            let fewer = with.remove(p);
            assert forall|i: int, j: int|
                0 <= i < fewer.len() && 0 <= j < fewer.len() && i != j implies fewer[i]
                != fewer[j] by {
                let a = if i < p {
                    i
                } else {
                    i + 1
                };
                let b = if j < p {
                    j
                } else {
                    j + 1
                };
                assert(fewer[i] == with[a] && fewer[j] == with[b]);
            }
            assert forall|k: int| 0 <= k < fewer.len() implies 0 <= #[trigger] fewer[k]
                < rest.len() by {
                let a = if k < p {
                    k
                } else {
                    k + 1
                };
                assert(fewer[k] == with[a]);
                assert(with[a] != with[p]);
            }
            assert forall|f: int| 0 <= f < rest.len() implies ((#[trigger] rest[f]).len() > 0
                <==> fewer.contains(f)) by {
                assert(rest[f] == files[f]);
                if with.contains(f) {
                    let a = choose|a: int| 0 <= a < with.len() && with[a] == f;
                    if a < p {
                        assert(fewer[a] == f);
                    } else {
                        assert(fewer[a - 1] == f);
                    }
                }
                if fewer.contains(f) {
                    let a = choose|a: int| 0 <= a < fewer.len() && fewer[a] == f;
                    if a < p {
                        assert(with[a] == f);
                    } else {
                        assert(with[a + 1] == f);
                    }
                }
            }
            lemma_fingerprinted(rest, fewer);
        } else {
            assert forall|k: int| 0 <= k < with.len() implies 0 <= #[trigger] with[k]
                < rest.len() by {
                if with[k] == last {
                    assert(with.contains(last));
                }
            }
            assert forall|f: int| 0 <= f < rest.len() implies ((#[trigger] rest[f]).len() > 0
                <==> with.contains(f)) by {
                assert(rest[f] == files[f]);
            }
            lemma_fingerprinted(rest, with);
        }
    }
}

/// Without settings a theme must be in at least two files, and at least two files must
/// have fingerprints; with settings, in as many as they say within their range.
pub proof fn themes_recur_in_two_files(settings: Json, n: u64)
    ensures
        min_repeat_of(None) == 2,
        min_files_of(None) == 2,
        json::json_get(settings, "min_repeat_count"@) == Some(
            Json::Number(JsonNumber::Unsigned(n)),
        ) ==> min_repeat_of(Some(settings)) == if 2 <= n <= 20 {
            n as int
        } else {
            2
        },
        json::json_get(settings, "min_season_files"@) == Some(
            Json::Number(JsonNumber::Unsigned(n)),
        ) ==> min_files_of(Some(settings)) == if 2 <= n <= 50 {
            n as int
        } else {
            2
        },
{
}

/// A window of a payload is read under any of the names that its members go by, where
/// those before it are not there: its fingerprint, in lower case and without white space
/// round it, its start and its end.
pub proof fn windows_are_read_under_their_names(
    media_file_id: Seq<char>,
    episode_id: Seq<char>,
    duration: Option<i64>,
    j: Json,
    a: int,
    b: int,
    c: int,
    h: Seq<char>,
    start: i64,
    end: i64,
)
    requires
        ({
            let hashes = seq!["hash"@, "fingerprint"@, "signature"@];
            let starts = seq!["start_seconds"@, "startSeconds"@, "start"@, "start_time"@];
            let ends = seq!["end_seconds"@, "endSeconds"@, "end"@, "end_time"@];
            &&& 0 <= a < hashes.len() && 0 <= b < starts.len() && 0 <= c < ends.len()
            &&& json::json_get(j, hashes[a]) == Some(Json::Text(h))
            &&& json::json_get(j, starts[b]) == Some(Json::Number(JsonNumber::Fraction(start)))
            &&& json::json_get(j, ends[c]) == Some(Json::Number(JsonNumber::Fraction(end)))
            &&& forall|i: int| 0 <= i < a ==> json::json_get(j, #[trigger] hashes[i]) is None
            &&& forall|i: int| 0 <= i < b ==> json::json_get(j, #[trigger] starts[i]) is None
            &&& forall|i: int| 0 <= i < c ==> json::json_get(j, #[trigger] ends[i]) is None
        }),
        text::trim_seq(h).len() >= 3,
    ensures
        ({
            let w = window_of(media_file_id, episode_id, duration, j);
            &&& w is Some <==> 0 <= start < end
            &&& w is Some ==> w->0 == (AudioWindow {
                media_file_id,
                episode_id,
                start,
                end,
                hash: text::lower_seq(text::trim_seq(h)),
                duration,
            })
        }),
{
    reading::first_member_there_counts(j, hash_names(), a);
    reading::first_readable_time_counts(j, window_start_names(), b, start);
    reading::first_readable_time_counts(j, window_end_names(), c, end);
    lemma_bytes_of_characters(text::trim_seq(h));
}

proof fn lemma_bytes_of_characters(s: Seq<char>)
    ensures
        utf8_length(s) >= s.len(),
        utf8_length(s) <= 4 * s.len(),
    decreases s.len(),
{
    if s.len() > 0 {
        lemma_bytes_of_characters(s.drop_last());
    }
}

/// A window that names its length in place of its end ends so much after its start; one
/// without a start, or whose fingerprint is blank, is none.
pub proof fn windows_may_name_their_length(
    media_file_id: Seq<char>,
    episode_id: Seq<char>,
    duration: Option<i64>,
    j: Json,
    k: int,
    start: i64,
    length: i64,
)
    requires
        ({
            let lengths = seq!["duration_seconds"@, "durationSeconds"@, "duration"@];
            &&& 0 <= k < lengths.len()
            &&& json::json_get(j, lengths[k]) == Some(Json::Number(JsonNumber::Fraction(length)))
            &&& forall|i: int| 0 <= i < k ==> json::json_get(j, #[trigger] lengths[i]) is None
        }),
        reading::first_time(j, seq!["start_seconds"@, "startSeconds"@, "start"@, "start_time"@])
            == Some(start),
        reading::first_time(j, seq!["end_seconds"@, "endSeconds"@, "end"@, "end_time"@]) is None,
        0 <= start <= 1_000_000_000_000_000,
        0 < length <= 1_000_000_000_000_000,
    ensures
        ({
            let w = window_of(media_file_id, episode_id, duration, j);
            &&& w is Some <==> hash_in(j) is Some
            &&& w is Some ==> w->0.start == start && w->0.end == start + length && w->0.hash
                == hash_in(j)->0
        }),
{
    reading::first_readable_time_counts(j, window_length_names(), k, length);
}

/// A theme replaces the one of its file and type only where it is surer; a theme that is
/// no surer changes nothing.
pub proof fn surer_themes_replace_others(best: Theme, t: Theme)
    requires
        best.media_file_id == t.media_file_id,
        best.segment_type == t.segment_type,
    ensures
        t.confidence > best.confidence ==> improved(seq![best], t) =~= seq![t],
        t.confidence <= best.confidence ==> improved(seq![best], t) =~= seq![best],
{
    let one = seq![best];
    assert(one[0] == best);
    assert(one.drop_first() =~= Seq::empty());
}

/// The themes of a season come by their files.
pub proof fn themes_come_by_file(
    provider_settings: Option<Json>,
    files: Seq<Seq<AudioWindow>>,
    i: int,
    j: int,
)
    requires
        0 <= i < j < season_themes(provider_settings, files).len(),
    ensures
        ({
            let s = season_themes(provider_settings, files);
            &&& !text::lex_lt(s[j].media_file_id, s[i].media_file_id)
            &&& s[i].media_file_id == s[j].media_file_id ==> text::lex_lt(
                s[i].segment_type,
                s[j].segment_type,
            )
        }),
{
    let all = season_windows(files);
    one_theme_per_file_and_type(
        all,
        hashes_of(all),
        min_repeat_of(provider_settings),
        files.len(),
    );
    let s = season_themes(provider_settings, files);
    text::lex_order_is_total(s[i].media_file_id, s[j].media_file_id);
}

/// What the detector reports of a season: whether and why it was skipped, and how many
/// files it saw.
pub proof fn seasons_are_reported(
    r: LocalAudioDetectorSummary,
    season_id: Seq<char>,
    provider_settings: Option<Json>,
    files: Seq<Seq<AudioWindow>>,
)
    requires
        audio_report(r, season_id, provider_settings, files),
    ensures
        ({
            let on = provider_settings is Some && json::json_get(
                provider_settings->0,
                "enabled"@,
            ) == Some(Json::Bool(true));
            let skip = audio_skip(provider_settings, files);
            &&& r.season_id@ == season_id
            &&& !on ==> skip == Some("local_audio_detector_disabled"@) && r.files_seen == 0
            &&& on ==> r.files_seen == files.len()
            &&& skip is Some ==> r.status@ == "skipped"@ && r.reason is Some && r.reason->0@
                == skip->0 && r.repeated_groups == 0
            &&& skip is None ==> r.status@ == "ok"@ && r.reason is None
            &&& r.candidates_submitted == 0 && r.candidates_accepted == 0 && r.candidates_rejected
                == 0
        }),
{
}

/// A fingerprint of fewer than three letters or digits is none.
pub proof fn short_fingerprints_are_none(j: Json, h: Seq<char>)
    requires
        json::json_get(j, "hash"@) == Some(Json::Text(h)),
        forall|i: int| 0 <= i < text::trim_seq(h).len() ==> #[trigger] text::trim_seq(h)[i] <= '~',
    ensures
        hash_in(j) is Some <==> text::trim_seq(h).len() >= 3,
        hash_in(j) is Some ==> hash_in(j)->0 == text::lower_seq(text::trim_seq(h)),
{
    assert(hash_names()[0] == "hash"@);
    reading::first_member_there_counts(j, hash_names(), 0);
    lemma_plain_bytes(text::trim_seq(h));
}

proof fn lemma_plain_bytes(s: Seq<char>)
    requires
        forall|i: int| 0 <= i < s.len() ==> #[trigger] s[i] <= '~',
    ensures
        utf8_length(s) == s.len(),
    decreases s.len(),
{
    if s.len() > 0 {
        assert(s[s.len() - 1] <= '~');
        assert forall|i: int| 0 <= i < s.drop_last().len() implies #[trigger] s.drop_last()[i]
            <= '~' by {
            assert(s[i] <= '~');
        }
        lemma_plain_bytes(s.drop_last());
    }
}

/// Each candidate that is submitted counts once, and as accepted where it was accepted and
/// as rejected otherwise.
pub proof fn submitted_candidates_count_once(state: &str)
    ensures
        forall|s: &mut LocalAudioDetectorSummary|
            (*s).candidates_submitted < usize::MAX && (*s).candidates_accepted < usize::MAX
                && (*s).candidates_rejected < usize::MAX && #[trigger] call_ensures(
                count_audio_candidate,
                (s, state),
                (),
            ) ==> {
                &&& (*final(s)).candidates_submitted == (*s).candidates_submitted + 1
                &&& state@ == "accepted"@ ==> (*final(s)).candidates_accepted
                    == (*s).candidates_accepted + 1 && (*final(s)).candidates_rejected
                    == (*s).candidates_rejected
                &&& state@ != "accepted"@ ==> (*final(s)).candidates_accepted
                    == (*s).candidates_accepted && (*final(s)).candidates_rejected
                    == (*s).candidates_rejected + 1
                &&& (*final(s)).active_segments == (*s).active_segments
            },
{
}

} // verus!
