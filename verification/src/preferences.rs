//! How playback deals with segments: what to skip, when to play the next item,
//! and which providers to ask.

use vstd::prelude::*;
use crate::error::{refuse, SegmentError};
use crate::json::{Json, JsonValue};
use crate::settings;
use crate::text;

verus! {

/// A user's playback preferences.
#[derive(Debug, Clone)]
pub struct PlaybackInteractionPreferences {
    pub skip_intro_behavior: String,
    pub skip_recap_behavior: String,
    pub skip_preview_behavior: String,
    pub skip_credits_behavior: String,
    pub skip_outro_behavior: String,
    pub autoplay_enabled: bool,
    pub autoplay_countdown_seconds: i32,
    pub autoplay_max_consecutive: i32,
    pub autoplay_max_elapsed_minutes: i32,
    pub segment_provider_settings: JsonValue,
}

/// A change of playback preferences: what is absent stays.
#[derive(Debug, Clone, Default)]
pub struct PlaybackInteractionPreferencesPatch {
    pub skip_intro_behavior: Option<String>,
    pub skip_recap_behavior: Option<String>,
    pub skip_preview_behavior: Option<String>,
    pub skip_credits_behavior: Option<String>,
    pub skip_outro_behavior: Option<String>,
    pub autoplay_enabled: Option<bool>,
    pub autoplay_countdown_seconds: Option<i32>,
    pub autoplay_max_consecutive: Option<i32>,
    pub autoplay_max_elapsed_minutes: Option<i32>,
    pub segment_provider_settings: Option<JsonValue>,
}

/// Playback preferences as a mathematical value.
pub struct Preferences {
    pub skip_intro_behavior: Seq<char>,
    pub skip_recap_behavior: Seq<char>,
    pub skip_preview_behavior: Seq<char>,
    pub skip_credits_behavior: Seq<char>,
    pub skip_outro_behavior: Seq<char>,
    pub autoplay_enabled: bool,
    pub autoplay_countdown_seconds: i32,
    pub autoplay_max_consecutive: i32,
    pub autoplay_max_elapsed_minutes: i32,
    pub segment_provider_settings: Json,
}

impl View for PlaybackInteractionPreferences {
    type V = Preferences;

    open spec fn view(&self) -> Preferences {
        Preferences {
            skip_intro_behavior: self.skip_intro_behavior@,
            skip_recap_behavior: self.skip_recap_behavior@,
            skip_preview_behavior: self.skip_preview_behavior@,
            skip_credits_behavior: self.skip_credits_behavior@,
            skip_outro_behavior: self.skip_outro_behavior@,
            autoplay_enabled: self.autoplay_enabled,
            autoplay_countdown_seconds: self.autoplay_countdown_seconds,
            autoplay_max_consecutive: self.autoplay_max_consecutive,
            autoplay_max_elapsed_minutes: self.autoplay_max_elapsed_minutes,
            segment_provider_settings: self.segment_provider_settings@,
        }
    }
}

/// Whether `s` says what playback does with a segment.
pub open spec fn skip_behavior(s: Seq<char>) -> bool {
    s == "disabled"@ || s == "prompt"@ || s == "auto"@ || s == "ask_each_time"@
}

/// The normal form of a skip behaviour, or why there is none.
pub open spec fn skip_behavior_of(value: Seq<char>) -> Result<Seq<char>, Seq<char>> {
    if skip_behavior(text::snake_seq(value)) {
        Ok(text::snake_seq(value))
    } else {
        Err("invalid skip behavior"@)
    }
}

/// The normal form of a skip behaviour.
pub fn validate_skip_behavior(value: &str) -> (r: Result<String, SegmentError>)
    ensures
        crate::error::text_agrees(r, skip_behavior_of(value@)),
{
    let normalized = text::to_snake(value);
    if text::str_eq(normalized.as_str(), "disabled") || text::str_eq(normalized.as_str(), "prompt")
        || text::str_eq(normalized.as_str(), "auto") || text::str_eq(
        normalized.as_str(),
        "ask_each_time",
    ) {
        Ok(normalized)
    } else {
        Err(refuse("invalid skip behavior"))
    }
}

/// Whether a result is the number, or the error message, that `s` says.
pub open spec fn number_agrees(r: Result<i32, SegmentError>, s: Result<i32, Seq<char>>) -> bool {
    match (r, s) {
        (Ok(n), Ok(m)) => n == m,
        (Err(e), Err(m)) => e.message@ == m,
        _ => false,
    }
}

/// The value where it is within its range, or why it is refused.
pub open spec fn countdown_of(value: i32) -> Result<i32, Seq<char>> {
    if 0 <= value <= 120 {
        Ok(value)
    } else {
        Err("autoplay_countdown_seconds must be between 0 and 120"@)
    }
}

/// The value where it is within its range.
pub fn validate_countdown_seconds(value: i32) -> (r: Result<i32, SegmentError>)
    ensures
        number_agrees(r, countdown_of(value)),
{
    if 0 <= value && value <= 120 {
        Ok(value)
    } else {
        Err(refuse("autoplay_countdown_seconds must be between 0 and 120"))
    }
}

/// The value where it is within its range, or why it is refused.
pub open spec fn max_consecutive_of(value: i32) -> Result<i32, Seq<char>> {
    if 0 <= value <= 20 {
        Ok(value)
    } else {
        Err("autoplay_max_consecutive must be between 0 and 20"@)
    }
}

/// The value where it is within its range.
pub fn validate_max_consecutive(value: i32) -> (r: Result<i32, SegmentError>)
    ensures
        number_agrees(r, max_consecutive_of(value)),
{
    if 0 <= value && value <= 20 {
        Ok(value)
    } else {
        Err(refuse("autoplay_max_consecutive must be between 0 and 20"))
    }
}

/// The value where it is within its range, or why it is refused.
pub open spec fn max_elapsed_of(value: i32) -> Result<i32, Seq<char>> {
    if 0 <= value <= 1440 {
        Ok(value)
    } else {
        Err("autoplay_max_elapsed_minutes must be between 0 and 1440"@)
    }
}

/// The value where it is within its range.
pub fn validate_max_elapsed_minutes(value: i32) -> (r: Result<i32, SegmentError>)
    ensures
        number_agrees(r, max_elapsed_of(value)),
{
    if 0 <= value && value <= 1440 {
        Ok(value)
    } else {
        Err(refuse("autoplay_max_elapsed_minutes must be between 0 and 1440"))
    }
}

/// The behaviour after a patch.
pub open spec fn behavior_after(current: Seq<char>, patch: Option<String>) -> Result<
    Seq<char>,
    Seq<char>,
> {
    match patch {
        Some(v) => skip_behavior_of(v@),
        None => Ok(current),
    }
}

fn apply_behavior(current: String, patch: &Option<String>) -> (r: Result<String, SegmentError>)
    ensures
        crate::error::text_agrees(r, behavior_after(current@, *patch)),
{
    match patch {
        Some(v) => validate_skip_behavior(v.as_str()),
        None => Ok(current),
    }
}

/// The preferences after a patch, or why its first refused part is refused.
pub open spec fn preferences_after(
    p: Preferences,
    patch: PlaybackInteractionPreferencesPatch,
) -> Result<Preferences, Seq<char>> {
    match behavior_after(p.skip_intro_behavior, patch.skip_intro_behavior) {
        Err(e) => Err(e),
        Ok(skip_intro_behavior) => 
        match behavior_after(p.skip_recap_behavior, patch.skip_recap_behavior) {
            Err(e) => Err(e),
            Ok(skip_recap_behavior) => 
            match behavior_after(p.skip_preview_behavior, patch.skip_preview_behavior) {
                Err(e) => Err(e),
                Ok(skip_preview_behavior) => 
                match behavior_after(p.skip_credits_behavior, patch.skip_credits_behavior) {
                    Err(e) => Err(e),
                    Ok(skip_credits_behavior) => 
                    match behavior_after(p.skip_outro_behavior, patch.skip_outro_behavior) {
                        Err(e) => Err(e),
                        Ok(skip_outro_behavior) => 
                        match (match patch.autoplay_countdown_seconds { Some(v) => countdown_of(v), None => Ok(p.autoplay_countdown_seconds) }) {
                            Err(e) => Err(e),
                            Ok(autoplay_countdown_seconds) => 
                            match (match patch.autoplay_max_consecutive { Some(v) => max_consecutive_of(v), None => Ok(p.autoplay_max_consecutive) }) {
                                Err(e) => Err(e),
                                Ok(autoplay_max_consecutive) => 
                                match (match patch.autoplay_max_elapsed_minutes { Some(v) => max_elapsed_of(v), None => Ok(p.autoplay_max_elapsed_minutes) }) {
                                    Err(e) => Err(e),
                                    Ok(autoplay_max_elapsed_minutes) => 
                                    match (match patch.segment_provider_settings {
                                        Some(v) => settings::merged_settings(p.segment_provider_settings, v@),
                                        None => Ok(p.segment_provider_settings),
                                    }) {
                                        Err(e) => Err(e),
                                        Ok(segment_provider_settings) => Ok(Preferences {
                                            skip_intro_behavior,
                                            skip_recap_behavior,
                                            skip_preview_behavior,
                                            skip_credits_behavior,
                                            skip_outro_behavior,
                                            autoplay_enabled: match patch.autoplay_enabled {
                                                Some(v) => v,
                                                None => p.autoplay_enabled,
                                            },
                                            autoplay_countdown_seconds,
                                            autoplay_max_consecutive,
                                            autoplay_max_elapsed_minutes,
                                            segment_provider_settings,
                                        }),
                                    },
                                },
                            },
                        },
                    },
                },
            },
        },
    }
}

/// Applies a patch to playback preferences.
pub fn apply_preferences_patch(
    preferences: PlaybackInteractionPreferences,
    patch: PlaybackInteractionPreferencesPatch,
) -> (r: Result<PlaybackInteractionPreferences, SegmentError>)
    ensures
        match (r, preferences_after(preferences@, patch)) {
            (Ok(v), Ok(p)) => v@ == p,
            (Err(e), Err(m)) => e.message@ == m,
            _ => false,
        },
{
    let skip_intro_behavior = match apply_behavior(preferences.skip_intro_behavior, &patch.skip_intro_behavior) {
        Ok(v) => v,
        Err(e) => {
            return Err(e);
        },
    };
    let skip_recap_behavior = match apply_behavior(preferences.skip_recap_behavior, &patch.skip_recap_behavior) {
        Ok(v) => v,
        Err(e) => {
            return Err(e);
        },
    };
    let skip_preview_behavior = match apply_behavior(preferences.skip_preview_behavior, &patch.skip_preview_behavior) {
        Ok(v) => v,
        Err(e) => {
            return Err(e);
        },
    };
    let skip_credits_behavior = match apply_behavior(preferences.skip_credits_behavior, &patch.skip_credits_behavior) {
        Ok(v) => v,
        Err(e) => {
            return Err(e);
        },
    };
    let skip_outro_behavior = match apply_behavior(preferences.skip_outro_behavior, &patch.skip_outro_behavior) {
        Ok(v) => v,
        Err(e) => {
            return Err(e);
        },
    };
    let autoplay_countdown_seconds: i32 = match patch.autoplay_countdown_seconds {
        Some(v) => match validate_countdown_seconds(v) {
            Ok(n) => n,
            Err(e) => {
                return Err(e);
            },
        },
        None => preferences.autoplay_countdown_seconds,
    };
    let autoplay_max_consecutive: i32 = match patch.autoplay_max_consecutive {
        Some(v) => match validate_max_consecutive(v) {
            Ok(n) => n,
            Err(e) => {
                return Err(e);
            },
        },
        None => preferences.autoplay_max_consecutive,
    };
    let autoplay_max_elapsed_minutes: i32 = match patch.autoplay_max_elapsed_minutes {
        Some(v) => match validate_max_elapsed_minutes(v) {
            Ok(n) => n,
            Err(e) => {
                return Err(e);
            },
        },
        None => preferences.autoplay_max_elapsed_minutes,
    };
    let segment_provider_settings = match &patch.segment_provider_settings {
        Some(v) => match settings::merge_segment_provider_settings(
            &preferences.segment_provider_settings,
            v,
        ) {
            Ok(m) => m,
            Err(e) => {
                return Err(e);
            },
        },
        None => preferences.segment_provider_settings,
    };
    let autoplay_enabled = match patch.autoplay_enabled {
        Some(v) => v,
        None => preferences.autoplay_enabled,
    };
    Ok(
        PlaybackInteractionPreferences {
            skip_intro_behavior,
            skip_recap_behavior,
            skip_preview_behavior,
            skip_credits_behavior,
            skip_outro_behavior,
            autoplay_enabled,
            autoplay_countdown_seconds,
            autoplay_max_consecutive,
            autoplay_max_elapsed_minutes,
            segment_provider_settings,
        },
    )
}

/// The preferences of a user who has set none.
pub open spec fn default_preferences() -> Preferences {
    Preferences {
        skip_intro_behavior: "prompt"@,
        skip_recap_behavior: "prompt"@,
        skip_preview_behavior: "prompt"@,
        skip_credits_behavior: "prompt"@,
        skip_outro_behavior: "prompt"@,
        autoplay_enabled: true,
        autoplay_countdown_seconds: 10,
        autoplay_max_consecutive: 3,
        autoplay_max_elapsed_minutes: 180,
        segment_provider_settings: settings::default_settings(),
    }
}

/// The preferences of a user who has set none.
pub fn default_playback_preferences() -> (p: PlaybackInteractionPreferences)
    ensures
        p@ == default_preferences(),
{
    PlaybackInteractionPreferences {
        skip_intro_behavior: "prompt".to_owned(),
        skip_recap_behavior: "prompt".to_owned(),
        skip_preview_behavior: "prompt".to_owned(),
        skip_credits_behavior: "prompt".to_owned(),
        skip_outro_behavior: "prompt".to_owned(),
        autoplay_enabled: true,
        autoplay_countdown_seconds: 10,
        autoplay_max_consecutive: 3,
        autoplay_max_elapsed_minutes: 180,
        segment_provider_settings: settings::default_segment_provider_settings(),
    }
}

/// What a store holds of a user's preferences; a column that cannot be read is
/// absent.
#[derive(Debug, Clone)]
pub struct StoredPreferences {
    pub skip_intro_behavior: Option<String>,
    pub skip_recap_behavior: Option<String>,
    pub skip_preview_behavior: Option<String>,
    pub skip_credits_behavior: Option<String>,
    pub skip_outro_behavior: Option<String>,
    pub autoplay_enabled: bool,
    pub autoplay_countdown_seconds: Option<i64>,
    pub autoplay_max_consecutive: Option<i64>,
    pub autoplay_max_elapsed_minutes: Option<i64>,
    pub segment_provider_settings: Option<JsonValue>,
}

/// The text, or the default where there is none.
pub open spec fn text_or(t: Option<String>, default: Seq<char>) -> Seq<char> {
    match t {
        Some(s) => s@,
        None => default,
    }
}

/// The low bits of the number, or the default where there is none.
pub open spec fn low_i32_or(n: Option<i64>, default: i32) -> i32 {
    match n {
        Some(v) => v as i32,
        None => default,
    }
}

fn read_text(t: Option<String>, default: &str) -> (r: String)
    ensures
        r@ == text_or(t, default@),
{
    match t {
        Some(s) => s,
        None => default.to_owned(),
    }
}

fn read_i32(n: Option<i64>, default: i32) -> (r: i32)
    ensures
        r == low_i32_or(n, default),
{
    match n {
        Some(v) => v as i32,
        None => default,
    }
}

/// The preferences that a store holds, with the defaults where it holds none.
pub open spec fn stored_preferences(s: StoredPreferences) -> Preferences {
    let defaults = default_preferences();
    Preferences {
        skip_intro_behavior: text_or(s.skip_intro_behavior, "prompt"@),
        skip_recap_behavior: text_or(s.skip_recap_behavior, "prompt"@),
        skip_preview_behavior: text_or(s.skip_preview_behavior, "prompt"@),
        skip_credits_behavior: text_or(s.skip_credits_behavior, "prompt"@),
        skip_outro_behavior: text_or(s.skip_outro_behavior, "prompt"@),
        autoplay_enabled: s.autoplay_enabled,
        autoplay_countdown_seconds: low_i32_or(s.autoplay_countdown_seconds, 10),
        autoplay_max_consecutive: low_i32_or(s.autoplay_max_consecutive, 3),
        autoplay_max_elapsed_minutes: low_i32_or(s.autoplay_max_elapsed_minutes, 180),
        segment_provider_settings: match settings::merged_settings(
            settings::default_settings(),
            match s.segment_provider_settings {
                Some(v) => v@,
                None => Json::Null,
            },
        ) {
            Ok(m) => m,
            Err(e) => settings::default_settings(),
        },
    }
}

/// The preferences that a store holds, with the defaults where it holds none.
pub fn playback_preferences_from_stored(stored: StoredPreferences) -> (p:
    PlaybackInteractionPreferences)
    ensures
        p@ == stored_preferences(stored),
{
    let defaults = settings::default_segment_provider_settings();
    let patch = match stored.segment_provider_settings {
        Some(v) => v,
        None => JsonValue::Null,
    };
    let segment_provider_settings = match settings::merge_segment_provider_settings(
        &defaults,
        &patch,
    ) {
        Ok(m) => m,
        Err(_) => defaults,
    };
    PlaybackInteractionPreferences {
        skip_intro_behavior: read_text(stored.skip_intro_behavior, "prompt"),
        skip_recap_behavior: read_text(stored.skip_recap_behavior, "prompt"),
        skip_preview_behavior: read_text(stored.skip_preview_behavior, "prompt"),
        skip_credits_behavior: read_text(stored.skip_credits_behavior, "prompt"),
        skip_outro_behavior: read_text(stored.skip_outro_behavior, "prompt"),
        autoplay_enabled: stored.autoplay_enabled,
        autoplay_countdown_seconds: read_i32(stored.autoplay_countdown_seconds, 10),
        autoplay_max_consecutive: read_i32(stored.autoplay_max_consecutive, 3),
        autoplay_max_elapsed_minutes: read_i32(stored.autoplay_max_elapsed_minutes, 180),
        segment_provider_settings,
    }
}

/// Whether every part of the preferences is within its range.
pub open spec fn preferences_valid(p: Preferences) -> bool {
    &&& skip_behavior(p.skip_intro_behavior)
    &&& skip_behavior(p.skip_recap_behavior)
    &&& skip_behavior(p.skip_preview_behavior)
    &&& skip_behavior(p.skip_credits_behavior)
    &&& skip_behavior(p.skip_outro_behavior)
    &&& 0 <= p.autoplay_countdown_seconds <= 120
    &&& 0 <= p.autoplay_max_consecutive <= 20
    &&& 0 <= p.autoplay_max_elapsed_minutes <= 1440
}

/// The preferences of a user who has set none are within their ranges.
pub proof fn default_preferences_are_valid()
    ensures
        preferences_valid(default_preferences()),
{
}

/// No patch takes valid preferences out of their ranges.
pub proof fn patch_keeps_preferences_valid(
    p: Preferences,
    patch: PlaybackInteractionPreferencesPatch,
)
    requires
        preferences_valid(p),
    ensures
        preferences_after(p, patch) matches Ok(q) ==> preferences_valid(q),
{
}

/// A patch that names nothing changes nothing.
pub proof fn empty_patch_changes_nothing(p: Preferences, patch: PlaybackInteractionPreferencesPatch)
    requires
        patch.skip_intro_behavior is None,
        patch.skip_recap_behavior is None,
        patch.skip_preview_behavior is None,
        patch.skip_credits_behavior is None,
        patch.skip_outro_behavior is None,
        patch.autoplay_enabled is None,
        patch.autoplay_countdown_seconds is None,
        patch.autoplay_max_consecutive is None,
        patch.autoplay_max_elapsed_minutes is None,
        patch.segment_provider_settings is None,
    ensures
        preferences_after(p, patch) == Ok::<Preferences, Seq<char>>(p),
{
}

/// After a patch each preference is what the patch says of it, in its normal form and
/// within its range, and stays what it was where the patch says nothing.
pub proof fn patches_set_what_they_name(
    p: Preferences,
    patch: PlaybackInteractionPreferencesPatch,
)
    requires
        preferences_after(p, patch) is Ok,
    ensures
        ({
            let q = preferences_after(p, patch)->Ok_0;
            &&& patch.skip_intro_behavior is None ==> q.skip_intro_behavior == p.skip_intro_behavior
            &&& patch.skip_intro_behavior is Some ==> q.skip_intro_behavior == text::snake_seq(
                patch.skip_intro_behavior->0@,
            ) && (q.skip_intro_behavior == "disabled"@ || q.skip_intro_behavior == "prompt"@ || q.skip_intro_behavior
                == "auto"@ || q.skip_intro_behavior == "ask_each_time"@)
            &&& patch.skip_recap_behavior is None ==> q.skip_recap_behavior == p.skip_recap_behavior
            &&& patch.skip_recap_behavior is Some ==> q.skip_recap_behavior == text::snake_seq(
                patch.skip_recap_behavior->0@,
            ) && (q.skip_recap_behavior == "disabled"@ || q.skip_recap_behavior == "prompt"@ || q.skip_recap_behavior
                == "auto"@ || q.skip_recap_behavior == "ask_each_time"@)
            &&& patch.skip_preview_behavior is None ==> q.skip_preview_behavior == p.skip_preview_behavior
            &&& patch.skip_preview_behavior is Some ==> q.skip_preview_behavior == text::snake_seq(
                patch.skip_preview_behavior->0@,
            ) && (q.skip_preview_behavior == "disabled"@ || q.skip_preview_behavior == "prompt"@ || q.skip_preview_behavior
                == "auto"@ || q.skip_preview_behavior == "ask_each_time"@)
            &&& patch.skip_credits_behavior is None ==> q.skip_credits_behavior == p.skip_credits_behavior
            &&& patch.skip_credits_behavior is Some ==> q.skip_credits_behavior == text::snake_seq(
                patch.skip_credits_behavior->0@,
            ) && (q.skip_credits_behavior == "disabled"@ || q.skip_credits_behavior == "prompt"@ || q.skip_credits_behavior
                == "auto"@ || q.skip_credits_behavior == "ask_each_time"@)
            &&& patch.skip_outro_behavior is None ==> q.skip_outro_behavior == p.skip_outro_behavior
            &&& patch.skip_outro_behavior is Some ==> q.skip_outro_behavior == text::snake_seq(
                patch.skip_outro_behavior->0@,
            ) && (q.skip_outro_behavior == "disabled"@ || q.skip_outro_behavior == "prompt"@ || q.skip_outro_behavior
                == "auto"@ || q.skip_outro_behavior == "ask_each_time"@)
            &&& patch.autoplay_countdown_seconds is None ==> q.autoplay_countdown_seconds == p.autoplay_countdown_seconds
            &&& patch.autoplay_countdown_seconds is Some ==> q.autoplay_countdown_seconds == patch.autoplay_countdown_seconds->0 && 0 <= q.autoplay_countdown_seconds <= 120
            &&& patch.autoplay_max_consecutive is None ==> q.autoplay_max_consecutive == p.autoplay_max_consecutive
            &&& patch.autoplay_max_consecutive is Some ==> q.autoplay_max_consecutive == patch.autoplay_max_consecutive->0 && 0 <= q.autoplay_max_consecutive <= 20
            &&& patch.autoplay_max_elapsed_minutes is None ==> q.autoplay_max_elapsed_minutes == p.autoplay_max_elapsed_minutes
            &&& patch.autoplay_max_elapsed_minutes is Some ==> q.autoplay_max_elapsed_minutes == patch.autoplay_max_elapsed_minutes->0 && 0 <= q.autoplay_max_elapsed_minutes <= 1_440
            &&& patch.autoplay_enabled is None ==> q.autoplay_enabled == p.autoplay_enabled
            &&& patch.autoplay_enabled is Some ==> q.autoplay_enabled == patch.autoplay_enabled->0
            &&& patch.segment_provider_settings is None ==> q.segment_provider_settings
                == p.segment_provider_settings
            &&& patch.segment_provider_settings is Some ==> settings::merged_settings(
                p.segment_provider_settings,
                patch.segment_provider_settings->0@,
            ) == Ok::<Json, Seq<char>>(q.segment_provider_settings)
        }),
{
}

/// A patch is taken just where every behaviour that it names is one of the four, every
/// number is within its range, and its provider settings are taken.
pub proof fn patches_are_taken_within_their_ranges(
    p: Preferences,
    patch: PlaybackInteractionPreferencesPatch,
)
    ensures
        preferences_after(p, patch) is Ok <==> {
            let known = |t: Seq<char>|
                {
                    let s = text::snake_seq(t);
                    s == "disabled"@ || s == "prompt"@ || s == "auto"@ || s == "ask_each_time"@
                };
            &&& patch.skip_intro_behavior is Some ==> known(patch.skip_intro_behavior->0@)
            &&& patch.skip_recap_behavior is Some ==> known(patch.skip_recap_behavior->0@)
            &&& patch.skip_preview_behavior is Some ==> known(patch.skip_preview_behavior->0@)
            &&& patch.skip_credits_behavior is Some ==> known(patch.skip_credits_behavior->0@)
            &&& patch.skip_outro_behavior is Some ==> known(patch.skip_outro_behavior->0@)
            &&& patch.autoplay_countdown_seconds is Some ==> 0
                <= patch.autoplay_countdown_seconds->0 <= 120
            &&& patch.autoplay_max_consecutive is Some ==> 0 <= patch.autoplay_max_consecutive->0
                <= 20
            &&& patch.autoplay_max_elapsed_minutes is Some ==> 0
                <= patch.autoplay_max_elapsed_minutes->0 <= 1_440
            &&& patch.segment_provider_settings is Some ==> settings::merged_settings(
                p.segment_provider_settings,
                patch.segment_provider_settings->0@,
            ) is Ok
        },
{
}

/// What a store holds of a user's preferences is what they are; where it holds nothing,
/// every segment is asked about, and the next item plays after ten seconds, three times
/// in a row and for three hours at most.
pub proof fn stored_preferences_hold(s: StoredPreferences)
    ensures
        ({
            let p = stored_preferences(s);
            &&& p.skip_intro_behavior == if s.skip_intro_behavior is Some {
                s.skip_intro_behavior->0@
            } else {
                "prompt"@
            }
            &&& p.skip_recap_behavior == if s.skip_recap_behavior is Some {
                s.skip_recap_behavior->0@
            } else {
                "prompt"@
            }
            &&& p.skip_preview_behavior == if s.skip_preview_behavior is Some {
                s.skip_preview_behavior->0@
            } else {
                "prompt"@
            }
            &&& p.skip_credits_behavior == if s.skip_credits_behavior is Some {
                s.skip_credits_behavior->0@
            } else {
                "prompt"@
            }
            &&& p.skip_outro_behavior == if s.skip_outro_behavior is Some {
                s.skip_outro_behavior->0@
            } else {
                "prompt"@
            }
            &&& p.autoplay_enabled == s.autoplay_enabled
            &&& s.autoplay_countdown_seconds is None ==> p.autoplay_countdown_seconds == 10
            &&& s.autoplay_max_consecutive is None ==> p.autoplay_max_consecutive == 3
            &&& s.autoplay_max_elapsed_minutes is None ==> p.autoplay_max_elapsed_minutes == 180
            &&& s.autoplay_countdown_seconds is Some && 0 <= s.autoplay_countdown_seconds->0 <= 120
                ==> p.autoplay_countdown_seconds == s.autoplay_countdown_seconds->0
            &&& s.autoplay_max_consecutive is Some && 0 <= s.autoplay_max_consecutive->0 <= 20
                ==> p.autoplay_max_consecutive == s.autoplay_max_consecutive->0
            &&& s.autoplay_max_elapsed_minutes is Some && 0 <= s.autoplay_max_elapsed_minutes->0
                <= 1_440 ==> p.autoplay_max_elapsed_minutes == s.autoplay_max_elapsed_minutes->0
        }),
        default_preferences().autoplay_enabled,
        default_preferences().autoplay_countdown_seconds == 10,
        default_preferences().autoplay_max_consecutive == 3,
        default_preferences().autoplay_max_elapsed_minutes == 180,
        default_preferences().skip_intro_behavior == "prompt"@,
        default_preferences().skip_credits_behavior == "prompt"@,
{
}

/// A behaviour that is none of the four is refused, and so is a number outside its range.
pub proof fn refused_preferences_say_why(value: Seq<char>, n: i32)
    ensures
        skip_behavior_of(value) is Err ==> skip_behavior_of(value)->Err_0
            == "invalid skip behavior"@,
        n < 0 || n > 120 ==> countdown_of(n) == Err::<i32, Seq<char>>(
            "autoplay_countdown_seconds must be between 0 and 120"@,
        ),
        n < 0 || n > 20 ==> max_consecutive_of(n) == Err::<i32, Seq<char>>(
            "autoplay_max_consecutive must be between 0 and 20"@,
        ),
        n < 0 || n > 1_440 ==> max_elapsed_of(n) == Err::<i32, Seq<char>>(
            "autoplay_max_elapsed_minutes must be between 0 and 1440"@,
        ),
{
}

} // verus!
