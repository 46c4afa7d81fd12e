//! The settings of segment providers: what a patch may change, the ranges that
//! hold, and what the detectors and lookups read from them.

use vstd::prelude::*;
use crate::consts;
use crate::error::{refuse, SegmentError};
use crate::json::{self, set_member, Json, JsonNumber, JsonValue};
use crate::normalize;
use crate::text;

verus! {

/// What a patch may do with one member of a provider's settings.
pub enum SettingRule {
    /// The switch of the provider: a boolean.
    Enabled,
    /// A text for the reader, kept to its first characters.
    Label,
    /// The address that the provider is asked at.
    BaseUrl,
    /// A whole number within a range, kept under `name`.
    Whole { name: &'static str, lo: i64, hi: i64, refusal: &'static str },
    /// A number within a range, in millionths, kept under `name`.
    Fraction { name: &'static str, lo: i64, hi: i64, refusal: &'static str },
    /// A member that the settings do not know.
    Ignored,
}

/// The rule for each member that a patch may name. A member has one name in
/// snake case, under which it is kept, and one in camel case.
pub open spec fn rule_of(key: Seq<char>) -> SettingRule {
    if key == "enabled"@ {
        SettingRule::Enabled
    } else if key == "label"@ || key == "kind"@ {
        SettingRule::Label
    } else if key == "base_url"@ || key == "baseUrl"@ {
        SettingRule::BaseUrl
    } else if key == "timeout_ms"@ || key == "timeoutMs"@ {
        SettingRule::Whole {
            name: "timeout_ms",
            lo: 250,
            hi: 30_000,
            refusal: "provider timeout_ms must be between 250 and 30000",
        }
    } else if key == "cache_ttl_seconds"@ || key == "cacheTtlSeconds"@ {
        SettingRule::Whole {
            name: "cache_ttl_seconds",
            lo: 0,
            hi: 2_592_000,
            refusal: "provider cache_ttl_seconds must be between 0 and 2592000",
        }
    } else if key == "rate_limit_per_minute"@ || key == "rateLimitPerMinute"@ {
        SettingRule::Whole {
            name: "rate_limit_per_minute",
            lo: 1,
            hi: 600,
            refusal: "provider rate_limit_per_minute must be between 1 and 600",
        }
    } else if key == "min_repeat_count"@ || key == "minRepeatCount"@ {
        SettingRule::Whole {
            name: "min_repeat_count",
            lo: 2,
            hi: 20,
            refusal: "provider min_repeat_count must be between 2 and 20",
        }
    } else if key == "min_frame_count"@ || key == "minFrameCount"@ {
        SettingRule::Whole {
            name: "min_frame_count",
            lo: 2,
            hi: 20,
            refusal: "provider min_frame_count must be between 2 and 20",
        }
    } else if key == "min_season_files"@ || key == "minSeasonFiles"@ {
        SettingRule::Whole {
            name: "min_season_files",
            lo: 2,
            hi: 50,
            refusal: "provider min_season_files must be between 2 and 50",
        }
    } else if key == "post_credit_scene_min_frames"@ || key == "postCreditSceneMinFrames"@ {
        SettingRule::Whole {
            name: "post_credit_scene_min_frames",
            lo: 1,
            hi: 20,
            refusal: "provider post_credit_scene_min_frames must be between 1 and 20",
        }
    } else if key == "frame_hash_max_frames"@ || key == "frameHashMaxFrames"@ {
        SettingRule::Whole {
            name: "frame_hash_max_frames",
            lo: 10,
            hi: 500,
            refusal: "provider frame_hash_max_frames must be between 10 and 500",
        }
    } else if key == "fingerprint_timeout_seconds"@ || key == "fingerprintTimeoutSeconds"@ {
        SettingRule::Whole {
            name: "fingerprint_timeout_seconds",
            lo: 5,
            hi: 600,
            refusal: "provider fingerprint_timeout_seconds must be between 5 and 600",
        }
    } else if key == "frame_hash_timeout_seconds"@ || key == "frameHashTimeoutSeconds"@ {
        SettingRule::Whole {
            name: "frame_hash_timeout_seconds",
            lo: 5,
            hi: 900,
            refusal: "provider frame_hash_timeout_seconds must be between 5 and 900",
        }
    } else if key == "min_span_seconds"@ || key == "minSpanSeconds"@ {
        SettingRule::Fraction {
            name: "min_span_seconds",
            lo: 10_000_000,
            hi: 600_000_000,
            refusal: "provider min_span_seconds must be between 10 and 600",
        }
    } else if key == "min_start_fraction"@ || key == "minStartFraction"@ {
        SettingRule::Fraction {
            name: "min_start_fraction",
            lo: 500_000,
            hi: 950_000,
            refusal: "provider min_start_fraction must be between 0.5 and 0.95",
        }
    } else if key == "max_frame_gap_seconds"@ || key == "maxFrameGapSeconds"@ {
        SettingRule::Fraction {
            name: "max_frame_gap_seconds",
            lo: 5_000_000,
            hi: 300_000_000,
            refusal: "provider max_frame_gap_seconds must be between 5 and 300",
        }
    } else if key == "black_ratio_threshold"@ || key == "blackRatioThreshold"@ {
        SettingRule::Fraction {
            name: "black_ratio_threshold",
            lo: 100_000,
            hi: 1_000_000,
            refusal: "provider black_ratio_threshold must be between 0.1 and 1",
        }
    } else if key == "text_ratio_threshold"@ || key == "textRatioThreshold"@ {
        SettingRule::Fraction {
            name: "text_ratio_threshold",
            lo: 10_000,
            hi: 1_000_000,
            refusal: "provider text_ratio_threshold must be between 0.01 and 1",
        }
    } else if key == "post_credit_scene_min_span_seconds"@ || key == "postCreditSceneMinSpanSeconds"@ {
        SettingRule::Fraction {
            name: "post_credit_scene_min_span_seconds",
            lo: 5_000_000,
            hi: 300_000_000,
            refusal: "provider post_credit_scene_min_span_seconds must be between 5 and 300",
        }
    } else if key == "frame_hash_step_seconds"@ || key == "frameHashStepSeconds"@ {
        SettingRule::Fraction {
            name: "frame_hash_step_seconds",
            lo: 5_000_000,
            hi: 120_000_000,
            refusal: "provider frame_hash_step_seconds must be between 5 and 120",
        }
    } else {
        SettingRule::Ignored
    }
}

/// The rule for each member that a patch may name.
pub fn setting_rule(key: &str) -> (r: SettingRule)
    ensures
        r == rule_of(key@),
{
    if text::str_eq(key, "enabled") {
        SettingRule::Enabled
    } else if text::str_eq(key, "label") || text::str_eq(key, "kind") {
        SettingRule::Label
    } else if text::str_eq(key, "base_url") || text::str_eq(key, "baseUrl") {
        SettingRule::BaseUrl
    } else if text::str_eq(key, "timeout_ms") || text::str_eq(key, "timeoutMs") {
        SettingRule::Whole {
            name: "timeout_ms",
            lo: 250,
            hi: 30_000,
            refusal: "provider timeout_ms must be between 250 and 30000",
        }
    } else if text::str_eq(key, "cache_ttl_seconds") || text::str_eq(key, "cacheTtlSeconds") {
        SettingRule::Whole {
            name: "cache_ttl_seconds",
            lo: 0,
            hi: 2_592_000,
            refusal: "provider cache_ttl_seconds must be between 0 and 2592000",
        }
    } else if text::str_eq(key, "rate_limit_per_minute") || text::str_eq(key, "rateLimitPerMinute") {
        SettingRule::Whole {
            name: "rate_limit_per_minute",
            lo: 1,
            hi: 600,
            refusal: "provider rate_limit_per_minute must be between 1 and 600",
        }
    } else if text::str_eq(key, "min_repeat_count") || text::str_eq(key, "minRepeatCount") {
        SettingRule::Whole {
            name: "min_repeat_count",
            lo: 2,
            hi: 20,
            refusal: "provider min_repeat_count must be between 2 and 20",
        }
    } else if text::str_eq(key, "min_frame_count") || text::str_eq(key, "minFrameCount") {
        SettingRule::Whole {
            name: "min_frame_count",
            lo: 2,
            hi: 20,
            refusal: "provider min_frame_count must be between 2 and 20",
        }
    } else if text::str_eq(key, "min_season_files") || text::str_eq(key, "minSeasonFiles") {
        SettingRule::Whole {
            name: "min_season_files",
            lo: 2,
            hi: 50,
            refusal: "provider min_season_files must be between 2 and 50",
        }
    } else if text::str_eq(key, "post_credit_scene_min_frames") || text::str_eq(key, "postCreditSceneMinFrames") {
        SettingRule::Whole {
            name: "post_credit_scene_min_frames",
            lo: 1,
            hi: 20,
            refusal: "provider post_credit_scene_min_frames must be between 1 and 20",
        }
    } else if text::str_eq(key, "frame_hash_max_frames") || text::str_eq(key, "frameHashMaxFrames") {
        SettingRule::Whole {
            name: "frame_hash_max_frames",
            lo: 10,
            hi: 500,
            refusal: "provider frame_hash_max_frames must be between 10 and 500",
        }
    } else if text::str_eq(key, "fingerprint_timeout_seconds") || text::str_eq(key, "fingerprintTimeoutSeconds") {
        SettingRule::Whole {
            name: "fingerprint_timeout_seconds",
            lo: 5,
            hi: 600,
            refusal: "provider fingerprint_timeout_seconds must be between 5 and 600",
        }
    } else if text::str_eq(key, "frame_hash_timeout_seconds") || text::str_eq(key, "frameHashTimeoutSeconds") {
        SettingRule::Whole {
            name: "frame_hash_timeout_seconds",
            lo: 5,
            hi: 900,
            refusal: "provider frame_hash_timeout_seconds must be between 5 and 900",
        }
    } else if text::str_eq(key, "min_span_seconds") || text::str_eq(key, "minSpanSeconds") {
        SettingRule::Fraction {
            name: "min_span_seconds",
            lo: 10_000_000,
            hi: 600_000_000,
            refusal: "provider min_span_seconds must be between 10 and 600",
        }
    } else if text::str_eq(key, "min_start_fraction") || text::str_eq(key, "minStartFraction") {
        SettingRule::Fraction {
            name: "min_start_fraction",
            lo: 500_000,
            hi: 950_000,
            refusal: "provider min_start_fraction must be between 0.5 and 0.95",
        }
    } else if text::str_eq(key, "max_frame_gap_seconds") || text::str_eq(key, "maxFrameGapSeconds") {
        SettingRule::Fraction {
            name: "max_frame_gap_seconds",
            lo: 5_000_000,
            hi: 300_000_000,
            refusal: "provider max_frame_gap_seconds must be between 5 and 300",
        }
    } else if text::str_eq(key, "black_ratio_threshold") || text::str_eq(key, "blackRatioThreshold") {
        SettingRule::Fraction {
            name: "black_ratio_threshold",
            lo: 100_000,
            hi: 1_000_000,
            refusal: "provider black_ratio_threshold must be between 0.1 and 1",
        }
    } else if text::str_eq(key, "text_ratio_threshold") || text::str_eq(key, "textRatioThreshold") {
        SettingRule::Fraction {
            name: "text_ratio_threshold",
            lo: 10_000,
            hi: 1_000_000,
            refusal: "provider text_ratio_threshold must be between 0.01 and 1",
        }
    } else if text::str_eq(key, "post_credit_scene_min_span_seconds") || text::str_eq(key, "postCreditSceneMinSpanSeconds") {
        SettingRule::Fraction {
            name: "post_credit_scene_min_span_seconds",
            lo: 5_000_000,
            hi: 300_000_000,
            refusal: "provider post_credit_scene_min_span_seconds must be between 5 and 300",
        }
    } else if text::str_eq(key, "frame_hash_step_seconds") || text::str_eq(key, "frameHashStepSeconds") {
        SettingRule::Fraction {
            name: "frame_hash_step_seconds",
            lo: 5_000_000,
            hi: 120_000_000,
            refusal: "provider frame_hash_step_seconds must be between 5 and 120",
        }
    } else {
        SettingRule::Ignored
    }
}

/// How many characters of a label are kept.
pub const LABEL_MAX_CHARS: usize = 80;

/// Whether `s` begins like the address of a web service.
pub open spec fn http_address(s: Seq<char>) -> bool {
    text::has_prefix_seq(s, "http://"@) || text::has_prefix_seq(s, "https://"@)
}

/// The settings after one member of a patch, or why the member is refused.
pub open spec fn patched(
    members: Seq<(Seq<char>, Json)>,
    key: Seq<char>,
    value: Json,
) -> Result<Seq<(Seq<char>, Json)>, Seq<char>> {
    match rule_of(key) {
        SettingRule::Enabled => match json::json_bool(value) {
            Some(b) => Ok(json::with_member(members, key, Json::Bool(b))),
            None => Err("provider enabled setting must be boolean"@),
        },
        SettingRule::Label => match json::json_text(value) {
            Some(t) => if text::trim_seq(t).len() == 0 {
                Ok(members)
            } else {
                Ok(
                    json::with_member(
                        members,
                        key,
                        Json::Text(text::first_chars(text::trim_seq(t), LABEL_MAX_CHARS as int)),
                    ),
                )
            },
            None => Ok(members),
        },
        SettingRule::BaseUrl => match json::json_text(value) {
            Some(t) => if http_address(text::trim_seq(t)) {
                Ok(json::with_member(members, "base_url"@, Json::Text(text::trim_seq(t))))
            } else {
                Err("provider base_url must be an http(s) URL"@)
            },
            None => Err("provider base_url must be an http(s) URL"@),
        },
        SettingRule::Whole { name, lo, hi, refusal } => match json::json_i64(value) {
            Some(n) => if lo <= n <= hi {
                Ok(json::with_member(members, name@, whole_json(n)))
            } else {
                Err(refusal@)
            },
            None => Err(refusal@),
        },
        SettingRule::Fraction { name, lo, hi, refusal } => match json::json_micros(value) {
            Some(n) => if lo <= n <= hi {
                Ok(json::with_member(members, name@, Json::Number(JsonNumber::Fraction(n))))
            } else {
                Err(refusal@)
            },
            None => Err(refusal@),
        },
        SettingRule::Ignored => Ok(members),
    }
}

/// The JSON form of a whole number.
pub open spec fn whole_json(n: i64) -> Json {
    if n >= 0 {
        Json::Number(JsonNumber::Unsigned(n as u64))
    } else {
        Json::Number(JsonNumber::Negative(n))
    }
}

/// The JSON form of a whole number.
pub fn whole_value(n: i64) -> (v: JsonValue)
    ensures
        v@ == whole_json(n),
{
    if n >= 0 {
        JsonValue::Number(JsonNumber::Unsigned(n as u64))
    } else {
        JsonValue::Number(JsonNumber::Negative(n))
    }
}

/// The settings after every member of a patch in turn, or why the first
/// refused member is refused.
pub open spec fn patched_all(
    members: Seq<(Seq<char>, Json)>,
    patch: Seq<(Seq<char>, Json)>,
) -> Result<Seq<(Seq<char>, Json)>, Seq<char>>
    decreases patch.len(),
{
    if patch.len() == 0 {
        Ok(members)
    } else {
        match patched_all(members, patch.drop_last()) {
            Ok(m) => patched(m, patch.last().0, patch.last().1),
            Err(e) => Err(e),
        }
    }
}

/// A provider's settings after a patch: a boolean switches the provider, an
/// object changes the members that it names.
pub open spec fn merged_entry(current: Json, patch: Json) -> Result<Json, Seq<char>> {
    match patch {
        Json::Bool(b) => Ok(
            Json::Object(json::with_member(json::json_members(current), "enabled"@, Json::Bool(b))),
        ),
        Json::Object(p) => match patched_all(json::json_members(current), p) {
            Ok(m) => Ok(Json::Object(m)),
            Err(e) => Err(e),
        },
        _ => Err("provider setting must be an object or boolean"@),
    }
}

/// Whether a result is the members, or the error message, that `s` says.
pub open spec fn members_agree(
    r: Result<Vec<(String, JsonValue)>, SegmentError>,
    s: Result<Seq<(Seq<char>, Json)>, Seq<char>>,
) -> bool {
    match (r, s) {
        (Ok(v), Ok(m)) => json::members_of(v@) == m,
        (Err(e), Err(m)) => e.message@ == m,
        _ => false,
    }
}

/// Whether the string begins like the address of a web service.
fn is_http_address(s: &str) -> (r: bool)
    ensures
        r == http_address(s@),
{
    text::has_prefix(s, "http://") || text::has_prefix(s, "https://")
}

/// Applies one member of a patch.
fn patch_member(
    members: Vec<(String, JsonValue)>,
    key: &str,
    value: &JsonValue,
) -> (r: Result<Vec<(String, JsonValue)>, SegmentError>)
    ensures
        members_agree(r, patched(json::members_of(members@), key@, value@)),
{
    let mut object = members;
    match setting_rule(key) {
        SettingRule::Enabled => match value.as_bool() {
            Some(b) => {
                set_member(&mut object, key, JsonValue::Bool(b));
            },
            None => {
                return Err(refuse("provider enabled setting must be boolean"));
            },
        },
        SettingRule::Label => match value.as_text() {
            Some(t) => {
                let label = text::trim(t.as_str());
                if !label.as_str().is_empty() {
                    let kept = text::take_chars(label.as_str(), LABEL_MAX_CHARS);
                    set_member(&mut object, key, JsonValue::Text(kept));
                }
            },
            None => {},
        },
        SettingRule::BaseUrl => match value.as_text() {
            Some(t) => {
                let url = text::trim(t.as_str());
                if is_http_address(url.as_str()) {
                    set_member(&mut object, "base_url", JsonValue::Text(url));
                } else {
                    return Err(refuse("provider base_url must be an http(s) URL"));
                }
            },
            None => {
                return Err(refuse("provider base_url must be an http(s) URL"));
            },
        },
        SettingRule::Whole { name, lo, hi, refusal } => match value.as_i64() {
            Some(n) => {
                if lo <= n && n <= hi {
                    set_member(&mut object, name, whole_value(n));
                } else {
                    return Err(refuse(refusal));
                }
            },
            None => {
                return Err(refuse(refusal));
            },
        },
        SettingRule::Fraction { name, lo, hi, refusal } => match value.as_micros() {
            Some(n) => {
                if lo <= n && n <= hi {
                    set_member(
                        &mut object,
                        name,
                        JsonValue::Number(JsonNumber::Fraction(n)),
                    );
                } else {
                    return Err(refuse(refusal));
                }
            },
            None => {
                return Err(refuse(refusal));
            },
        },
        SettingRule::Ignored => {},
    }
    Ok(object)
}

proof fn lemma_patched_all_prefix_error(
    members: Seq<(Seq<char>, Json)>,
    patch: Seq<(Seq<char>, Json)>,
    n: int,
)
    requires
        0 <= n <= patch.len(),
        patched_all(members, patch.take(n)) is Err,
    ensures
        patched_all(members, patch) == patched_all(members, patch.take(n)),
    decreases patch.len() - n,
{
    if n == patch.len() {
        assert(patch.take(n) =~= patch);
    } else {
        assert(patch.take(n + 1).drop_last() =~= patch.take(n));
        lemma_patched_all_prefix_error(members, patch, n + 1);
    }
}

/// Merges a patch into one provider's settings.
pub fn merge_provider_setting_entry(current: &JsonValue, patch: &JsonValue) -> (r: Result<
    JsonValue,
    SegmentError,
>)
    ensures
        crate::error::json_agrees(r, merged_entry(current@, patch@)),
{
    let mut object = json::members_dup(current);
    match patch {
        JsonValue::Bool(enabled) => {
            set_member(&mut object, "enabled", JsonValue::Bool(*enabled));
            proof {
                json::lemma_view_object(object);
            }
            Ok(JsonValue::Object(object))
        },
        JsonValue::Object(p) => {
            let ghost start = json::members_of(object@);
            let ghost whole = json::members_of(p@);
            proof {
                json::lemma_view_object(*p);
                assert(whole.take(0) =~= Seq::empty());
            }
            let mut i: usize = 0;
            while i < p.len()
                invariant
                    i <= p@.len(),
                    whole == json::members_of(p@),
                    patched_all(start, whole.take(i as int)) == Ok::<
                        Seq<(Seq<char>, Json)>,
                        Seq<char>,
                    >(json::members_of(object@)),
                    patch@ == Json::Object(whole),
                    start == json::json_members(current@),
                decreases p@.len() - i,
            {
                proof {
                    assert(whole.take(i + 1).drop_last() =~= whole.take(i as int));
                    assert(whole.take(i + 1).last() == whole[i as int]);
                }
                match patch_member(object, p[i].0.as_str(), &p[i].1) {
                    Ok(o) => {
                        object = o;
                    },
                    Err(e) => {
                        proof {
                            lemma_patched_all_prefix_error(start, whole, i + 1);
                        }
                        return Err(e);
                    },
                }
                i += 1;
            }
            proof {
                assert(whole.take(p@.len() as int) =~= whole);
                json::lemma_view_object(object);
            }
            Ok(JsonValue::Object(object))
        },
        _ => Err(refuse("provider setting must be an object or boolean")),
    }
}

/// A whole number of the settings under either of two names, where it is within
/// the range; else the default.
pub open spec fn whole_setting(
    settings: Option<Json>,
    a: Seq<char>,
    b: Seq<char>,
    lo: int,
    hi: int,
    default: int,
) -> int {
    match settings {
        Some(j) => match json::json_get_either(j, a, b) {
            Some(v) => match json::json_i64(v) {
                Some(n) => if lo <= n <= hi {
                    n as int
                } else {
                    default
                },
                None => default,
            },
            None => default,
        },
        None => default,
    }
}

/// A number of the settings under either of two names, in millionths, where it
/// is within the range; else the default.
pub open spec fn fraction_setting(
    settings: Option<Json>,
    a: Seq<char>,
    b: Seq<char>,
    lo: int,
    hi: int,
    default: int,
) -> int {
    match settings {
        Some(j) => match json::json_get_either(j, a, b) {
            Some(v) => match json::json_micros(v) {
                Some(n) => if lo <= n <= hi {
                    n as int
                } else {
                    default
                },
                None => default,
            },
            None => default,
        },
        None => default,
    }
}

fn read_whole(settings: Option<&JsonValue>, a: &str, b: &str, lo: i64, hi: i64, default: i64) -> (r:
    i64)
    ensures
        r == whole_setting(
            json::opt_json(settings),
            a@,
            b@,
            lo as int,
            hi as int,
            default as int,
        ),
{
    match settings {
        Some(j) => match j.get_either(a, b) {
            Some(v) => match v.as_i64() {
                Some(n) => if lo <= n && n <= hi {
                    n
                } else {
                    default
                },
                None => default,
            },
            None => default,
        },
        None => default,
    }
}

fn read_fraction(
    settings: Option<&JsonValue>,
    a: &str,
    b: &str,
    lo: i64,
    hi: i64,
    default: i64,
) -> (r: i64)
    ensures
        r == fraction_setting(
            json::opt_json(settings),
            a@,
            b@,
            lo as int,
            hi as int,
            default as int,
        ),
{
    match settings {
        Some(j) => match j.get_either(a, b) {
            Some(v) => match v.as_micros() {
                Some(n) => if lo <= n && n <= hi {
                    n
                } else {
                    default
                },
                None => default,
            },
            None => default,
        },
        None => default,
    }
}

/// How many files must repeat a window.
pub fn local_audio_min_repeat_count(settings: Option<&JsonValue>) -> (r: usize)
    ensures
        r == whole_setting(
            json::opt_json(settings),
            "min_repeat_count"@,
            "minRepeatCount"@,
            2,
            20,
            consts::LOCAL_AUDIO_DETECTOR_MIN_REPEAT_COUNT as int,
        ),
{
    read_whole(
        settings,
        "min_repeat_count",
        "minRepeatCount",
        2,
        20,
        consts::LOCAL_AUDIO_DETECTOR_MIN_REPEAT_COUNT as i64,
    ) as usize
}

/// How many files of a season the audio detector needs.
pub fn local_audio_min_season_files(settings: Option<&JsonValue>) -> (r: usize)
    ensures
        r == whole_setting(
            json::opt_json(settings),
            "min_season_files"@,
            "minSeasonFiles"@,
            2,
            50,
            consts::LOCAL_AUDIO_DETECTOR_MIN_SEASON_FILES as int,
        ),
{
    read_whole(
        settings,
        "min_season_files",
        "minSeasonFiles",
        2,
        50,
        consts::LOCAL_AUDIO_DETECTOR_MIN_SEASON_FILES as i64,
    ) as usize
}

/// How long the extraction of audio may take.
pub fn local_audio_fingerprint_timeout_seconds(settings: Option<&JsonValue>) -> (r: u64)
    ensures
        r == whole_setting(
            json::opt_json(settings),
            "fingerprint_timeout_seconds"@,
            "fingerprintTimeoutSeconds"@,
            5,
            600,
            consts::LOCAL_AUDIO_FINGERPRINT_TIMEOUT_SECONDS as int,
        ),
{
    read_whole(
        settings,
        "fingerprint_timeout_seconds",
        "fingerprintTimeoutSeconds",
        5,
        600,
        consts::LOCAL_AUDIO_FINGERPRINT_TIMEOUT_SECONDS as i64,
    ) as u64
}

/// How long the extraction of frames may take.
pub fn local_visual_frame_hash_timeout_seconds(settings: Option<&JsonValue>) -> (r: u64)
    ensures
        r == whole_setting(
            json::opt_json(settings),
            "frame_hash_timeout_seconds"@,
            "frameHashTimeoutSeconds"@,
            5,
            900,
            consts::LOCAL_VISUAL_FRAME_HASH_TIMEOUT_SECONDS as int,
        ),
{
    read_whole(
        settings,
        "frame_hash_timeout_seconds",
        "frameHashTimeoutSeconds",
        5,
        900,
        consts::LOCAL_VISUAL_FRAME_HASH_TIMEOUT_SECONDS as i64,
    ) as u64
}

/// How many frames of a file are sampled at most.
pub fn local_visual_frame_hash_max_frames(settings: Option<&JsonValue>) -> (r: usize)
    ensures
        r == whole_setting(
            json::opt_json(settings),
            "frame_hash_max_frames"@,
            "frameHashMaxFrames"@,
            10,
            500,
            consts::LOCAL_VISUAL_FRAME_HASH_MAX_FRAMES_PER_FILE as int,
        ),
{
    read_whole(
        settings,
        "frame_hash_max_frames",
        "frameHashMaxFrames",
        10,
        500,
        consts::LOCAL_VISUAL_FRAME_HASH_MAX_FRAMES_PER_FILE as i64,
    ) as usize
}

/// How many frames a credits run needs.
pub fn local_visual_min_frame_count(settings: Option<&JsonValue>) -> (r: usize)
    ensures
        r == whole_setting(
            json::opt_json(settings),
            "min_frame_count"@,
            "minFrameCount"@,
            2,
            20,
            consts::LOCAL_VISUAL_CREDITS_MIN_FRAME_COUNT as int,
        ),
{
    read_whole(
        settings,
        "min_frame_count",
        "minFrameCount",
        2,
        20,
        consts::LOCAL_VISUAL_CREDITS_MIN_FRAME_COUNT as i64,
    ) as usize
}

/// How many frames make a scene after the credits.
pub fn local_visual_post_credit_scene_min_frames(settings: Option<&JsonValue>) -> (r: usize)
    ensures
        r == whole_setting(
            json::opt_json(settings),
            "post_credit_scene_min_frames"@,
            "postCreditSceneMinFrames"@,
            1,
            20,
            consts::LOCAL_VISUAL_POST_CREDIT_SCENE_MIN_FRAMES as int,
        ),
{
    read_whole(
        settings,
        "post_credit_scene_min_frames",
        "postCreditSceneMinFrames",
        1,
        20,
        consts::LOCAL_VISUAL_POST_CREDIT_SCENE_MIN_FRAMES as i64,
    ) as usize
}

/// How long a provider's response is kept.
pub fn provider_cache_ttl_seconds(settings: Option<&JsonValue>) -> (r: i64)
    ensures
        r == whole_setting(
            json::opt_json(settings),
            "cache_ttl_seconds"@,
            "cacheTtlSeconds"@,
            0,
            2_592_000,
            consts::DEFAULT_PROVIDER_CACHE_TTL_SECONDS as int,
        ),
{
    read_whole(
        settings,
        "cache_ttl_seconds",
        "cacheTtlSeconds",
        0,
        2_592_000,
        consts::DEFAULT_PROVIDER_CACHE_TTL_SECONDS,
    )
}

/// How often a provider may be asked in one window.
pub fn provider_rate_limit_per_minute(settings: Option<&JsonValue>) -> (r: i64)
    ensures
        r == whole_setting(
            json::opt_json(settings),
            "rate_limit_per_minute"@,
            "rateLimitPerMinute"@,
            1,
            600,
            consts::DEFAULT_PROVIDER_RATE_LIMIT_PER_MINUTE as int,
        ),
{
    read_whole(
        settings,
        "rate_limit_per_minute",
        "rateLimitPerMinute",
        1,
        600,
        consts::DEFAULT_PROVIDER_RATE_LIMIT_PER_MINUTE,
    )
}

/// The time between two sampled frames, in microseconds.
pub fn local_visual_frame_hash_step_micros(settings: Option<&JsonValue>) -> (r: i64)
    ensures
        r == fraction_setting(
            json::opt_json(settings),
            "frame_hash_step_seconds"@,
            "frameHashStepSeconds"@,
            5_000_000,
            120_000_000,
            consts::LOCAL_VISUAL_FRAME_HASH_STEP_MICROS as int,
        ),
{
    read_fraction(
        settings,
        "frame_hash_step_seconds",
        "frameHashStepSeconds",
        5_000_000,
        120_000_000,
        consts::LOCAL_VISUAL_FRAME_HASH_STEP_MICROS,
    )
}

/// How long a credits run lasts at least, in microseconds.
pub fn local_visual_min_span_micros(settings: Option<&JsonValue>) -> (r: i64)
    ensures
        r == fraction_setting(
            json::opt_json(settings),
            "min_span_seconds"@,
            "minSpanSeconds"@,
            10_000_000,
            600_000_000,
            consts::LOCAL_VISUAL_CREDITS_MIN_SPAN_MICROS as int,
        ),
{
    read_fraction(
        settings,
        "min_span_seconds",
        "minSpanSeconds",
        10_000_000,
        600_000_000,
        consts::LOCAL_VISUAL_CREDITS_MIN_SPAN_MICROS,
    )
}

/// The part of a file before which no credits start, in millionths.
pub fn local_visual_min_start_fraction(settings: Option<&JsonValue>) -> (r: i64)
    ensures
        r == fraction_setting(
            json::opt_json(settings),
            "min_start_fraction"@,
            "minStartFraction"@,
            500_000,
            950_000,
            consts::LOCAL_VISUAL_CREDITS_MIN_START_FRACTION as int,
        ),
{
    read_fraction(
        settings,
        "min_start_fraction",
        "minStartFraction",
        500_000,
        950_000,
        consts::LOCAL_VISUAL_CREDITS_MIN_START_FRACTION,
    )
}

/// The largest gap within a credits run, in microseconds.
pub fn local_visual_max_frame_gap_micros(settings: Option<&JsonValue>) -> (r: i64)
    ensures
        r == fraction_setting(
            json::opt_json(settings),
            "max_frame_gap_seconds"@,
            "maxFrameGapSeconds"@,
            5_000_000,
            300_000_000,
            consts::LOCAL_VISUAL_CREDITS_MAX_FRAME_GAP_MICROS as int,
        ),
{
    read_fraction(
        settings,
        "max_frame_gap_seconds",
        "maxFrameGapSeconds",
        5_000_000,
        300_000_000,
        consts::LOCAL_VISUAL_CREDITS_MAX_FRAME_GAP_MICROS,
    )
}

/// How long a scene after the credits lasts at least, in microseconds.
pub fn local_visual_post_credit_scene_min_span_micros(settings: Option<&JsonValue>) -> (r: i64)
    ensures
        r == fraction_setting(
            json::opt_json(settings),
            "post_credit_scene_min_span_seconds"@,
            "postCreditSceneMinSpanSeconds"@,
            5_000_000,
            300_000_000,
            consts::LOCAL_VISUAL_POST_CREDIT_SCENE_MIN_SPAN_MICROS as int,
        ),
{
    read_fraction(
        settings,
        "post_credit_scene_min_span_seconds",
        "postCreditSceneMinSpanSeconds",
        5_000_000,
        300_000_000,
        consts::LOCAL_VISUAL_POST_CREDIT_SCENE_MIN_SPAN_MICROS,
    )
}

/// How dark a frame of credits is at least, in millionths.
pub fn local_visual_black_ratio_threshold(settings: Option<&JsonValue>) -> (r: i64)
    ensures
        r == fraction_setting(
            json::opt_json(settings),
            "black_ratio_threshold"@,
            "blackRatioThreshold"@,
            100_000,
            1_000_000,
            consts::LOCAL_VISUAL_CREDITS_BLACK_RATIO_THRESHOLD as int,
        ),
{
    read_fraction(
        settings,
        "black_ratio_threshold",
        "blackRatioThreshold",
        100_000,
        1_000_000,
        consts::LOCAL_VISUAL_CREDITS_BLACK_RATIO_THRESHOLD,
    )
}

/// How much text a frame of credits shows at least, in millionths.
pub fn local_visual_text_ratio_threshold(settings: Option<&JsonValue>) -> (r: i64)
    ensures
        r == fraction_setting(
            json::opt_json(settings),
            "text_ratio_threshold"@,
            "textRatioThreshold"@,
            10_000,
            1_000_000,
            consts::LOCAL_VISUAL_CREDITS_TEXT_RATIO_THRESHOLD as int,
        ),
{
    read_fraction(
        settings,
        "text_ratio_threshold",
        "textRatioThreshold",
        10_000,
        1_000_000,
        consts::LOCAL_VISUAL_CREDITS_TEXT_RATIO_THRESHOLD,
    )
}

/// How long one request of a provider may take, in milliseconds.
pub fn provider_timeout_millis(settings: Option<&JsonValue>) -> (r: u64)
    ensures
        r == whole_setting(
            json::opt_json(settings),
            "timeout_ms"@,
            "timeoutMs"@,
            250,
            30_000,
            consts::DEFAULT_PROVIDER_TIMEOUT_SECONDS * 1000,
        ),
{
    read_whole(
        settings,
        "timeout_ms",
        "timeoutMs",
        250,
        30_000,
        (consts::DEFAULT_PROVIDER_TIMEOUT_SECONDS * 1000) as i64,
    ) as u64
}

/// The switch of a provider's settings, or `default` where they have none.
pub open spec fn enabled_setting(settings: Option<Json>, default: bool) -> bool {
    match json::json_get_opt(settings, "enabled"@) {
        Some(v) => match json::json_bool(v) {
            Some(b) => b,
            None => default,
        },
        None => default,
    }
}

fn read_enabled(settings: Option<&JsonValue>, default: bool) -> (r: bool)
    ensures
        r == enabled_setting(json::opt_json(settings), default),
{
    match settings {
        Some(j) => match j.get("enabled") {
            Some(v) => match v.as_bool() {
                Some(b) => b,
                None => default,
            },
            None => default,
        },
        None => default,
    }
}

/// Whether a built-in provider is on: only where its settings say so.
pub fn provider_settings_enabled(settings: Option<&JsonValue>) -> (r: bool)
    ensures
        r == enabled_setting(json::opt_json(settings), false),
{
    read_enabled(settings, false)
}

/// Whether an installed provider is on: unless its settings say otherwise.
pub fn marketplace_provider_settings_enabled(settings: Option<&JsonValue>) -> (r: bool)
    ensures
        r == enabled_setting(json::opt_json(settings), true),
{
    read_enabled(settings, true)
}

/// The settings of one provider.
pub fn provider_settings_for(settings: &JsonValue, provider_kind: &str) -> (r: Option<JsonValue>)
    ensures
        (match r {
            Some(v) => Some(v@),
            None => None,
        }) == json::json_get(settings@, provider_kind@),
{
    match settings.get(provider_kind) {
        Some(v) => Some(v.dup()),
        None => None,
    }
}

/// The address of a provider: the one in its settings, else the default; or why
/// it is refused.
pub open spec fn base_url_of(settings: Option<Json>, default: Seq<char>) -> Result<
    Seq<char>,
    Seq<char>,
> {
    let raw = match settings {
        Some(j) => match json::json_get_either(j, "base_url"@, "baseUrl"@) {
            Some(v) => match json::json_text(v) {
                Some(t) => t,
                None => default,
            },
            None => default,
        },
        None => default,
    };
    if http_address(text::trim_seq(raw)) {
        Ok(text::trim_seq(raw))
    } else {
        Err("provider base_url must be an http(s) URL"@)
    }
}

/// The address of a provider.
pub fn provider_base_url(settings: Option<&JsonValue>, default: &str) -> (r: Result<
    String,
    SegmentError,
>)
    ensures
        crate::error::text_agrees(r, base_url_of(json::opt_json(settings), default@)),
{
    let raw = match settings {
        Some(j) => match j.get_either("base_url", "baseUrl") {
            Some(v) => match v.as_text() {
                Some(t) => text::trim(t.as_str()),
                None => text::trim(default),
            },
            None => text::trim(default),
        },
        None => text::trim(default),
    };
    if is_http_address(raw.as_str()) {
        Ok(raw)
    } else {
        Err(refuse("provider base_url must be an http(s) URL"))
    }
}

/// The settings of every provider under the normal form of its id; of two with
/// one id the later stays.
pub open spec fn settings_map(members: Seq<(Seq<char>, Json)>) -> Result<
    Seq<(Seq<char>, Json)>,
    Seq<char>,
>
    decreases members.len(),
{
    if members.len() == 0 {
        Ok(Seq::empty())
    } else {
        match settings_map(members.drop_last()) {
            Ok(m) => match normalize::provider_id_of(members.last().0) {
                Ok(id) => Ok(json::with_member(m, id, members.last().1)),
                Err(e) => Err(e),
            },
            Err(e) => Err(e),
        }
    }
}

/// What the settings of a provider are before its first patch.
pub open spec fn new_entry(provider_id: Seq<char>) -> Json {
    Json::Object(
        seq![
            ("enabled"@, Json::Bool(false)),
            ("kind"@, Json::Text("extension"@)),
            ("label"@, Json::Text(provider_id)),
        ],
    )
}

/// The settings after the patch of one provider.
pub open spec fn merged_provider(
    merged: Seq<(Seq<char>, Json)>,
    raw_id: Seq<char>,
    patch: Json,
) -> Result<Seq<(Seq<char>, Json)>, Seq<char>> {
    match normalize::provider_id_of(raw_id) {
        Ok(id) => {
            let current = match json::lookup(merged, id) {
                Some(v) => v,
                None => new_entry(id),
            };
            match merged_entry(current, patch) {
                Ok(v) => Ok(json::with_member(merged, id, v)),
                Err(e) => Err(e),
            }
        },
        Err(e) => Err(e),
    }
}

/// The settings after the patches of several providers in turn.
pub open spec fn merged_providers(
    merged: Seq<(Seq<char>, Json)>,
    patch: Seq<(Seq<char>, Json)>,
) -> Result<Seq<(Seq<char>, Json)>, Seq<char>>
    decreases patch.len(),
{
    if patch.len() == 0 {
        Ok(merged)
    } else {
        match merged_providers(merged, patch.drop_last()) {
            Ok(m) => merged_provider(m, patch.last().0, patch.last().1),
            Err(e) => Err(e),
        }
    }
}

/// The settings of all providers after a patch, or why it is refused.
pub open spec fn merged_settings(current: Json, patch: Json) -> Result<Json, Seq<char>> {
    match current {
        Json::Object(c) => match settings_map(c) {
            Ok(m) => match patch {
                Json::Object(p) => match merged_providers(m, p) {
                    Ok(r) => Ok(Json::Object(r)),
                    Err(e) => Err(e),
                },
                _ => Err("segment_provider_settings must be a JSON object"@),
            },
            Err(e) => Err(e),
        },
        _ => Err("segment_provider_settings must be a JSON object"@),
    }
}

proof fn lemma_settings_map_prefix_error(members: Seq<(Seq<char>, Json)>, n: int)
    requires
        0 <= n <= members.len(),
        settings_map(members.take(n)) is Err,
    ensures
        settings_map(members) == settings_map(members.take(n)),
    decreases members.len() - n,
{
    if n == members.len() {
        assert(members.take(n) =~= members);
    } else {
        assert(members.take(n + 1).drop_last() =~= members.take(n));
        lemma_settings_map_prefix_error(members, n + 1);
    }
}

proof fn lemma_merged_providers_prefix_error(
    merged: Seq<(Seq<char>, Json)>,
    patch: Seq<(Seq<char>, Json)>,
    n: int,
)
    requires
        0 <= n <= patch.len(),
        merged_providers(merged, patch.take(n)) is Err,
    ensures
        merged_providers(merged, patch) == merged_providers(merged, patch.take(n)),
    decreases patch.len() - n,
{
    if n == patch.len() {
        assert(patch.take(n) =~= patch);
    } else {
        assert(patch.take(n + 1).drop_last() =~= patch.take(n));
        lemma_merged_providers_prefix_error(merged, patch, n + 1);
    }
}

/// The settings of every provider under the normal form of its id.
fn provider_settings_map(value: &JsonValue) -> (r: Result<Vec<(String, JsonValue)>, SegmentError>)
    ensures
        members_agree(
            r,
            match value@ {
                Json::Object(c) => settings_map(c),
                _ => Err("segment_provider_settings must be a JSON object"@),
            },
        ),
{
    match value {
        JsonValue::Object(o) => {
            let ghost whole = json::members_of(o@);
            let mut map: Vec<(String, JsonValue)> = Vec::new();
            proof {
                json::lemma_view_object(*o);
                assert(whole.take(0) =~= Seq::empty());
                assert(json::members_of(map@) =~= Seq::empty());
            }
            let mut i: usize = 0;
            while i < o.len()
                invariant
                    i <= o@.len(),
                    whole == json::members_of(o@),
                    value@ == Json::Object(whole),
                    settings_map(whole.take(i as int)) == Ok::<
                        Seq<(Seq<char>, Json)>,
                        Seq<char>,
                    >(json::members_of(map@)),
                decreases o@.len() - i,
            {
                proof {
                    assert(whole.take(i + 1).drop_last() =~= whole.take(i as int));
                    assert(whole.take(i + 1).last() == whole[i as int]);
                }
                match normalize::normalize_provider_id(o[i].0.as_str()) {
                    Ok(id) => {
                        set_member(&mut map, id.as_str(), o[i].1.dup());
                    },
                    Err(e) => {
                        proof {
                            lemma_settings_map_prefix_error(whole, i + 1);
                        }
                        return Err(e);
                    },
                }
                i += 1;
            }
            proof {
                assert(whole.take(o@.len() as int) =~= whole);
            }
            Ok(map)
        },
        _ => Err(refuse("segment_provider_settings must be a JSON object")),
    }
}

/// What the settings of a provider are before its first patch.
pub fn new_provider_entry(provider_id: &str) -> (v: JsonValue)
    ensures
        v@ == new_entry(provider_id@),
{
    let mut o: Vec<(String, JsonValue)> = Vec::new();
    o.push(("enabled".to_owned(), JsonValue::Bool(false)));
    o.push(("kind".to_owned(), JsonValue::Text("extension".to_owned())));
    o.push(("label".to_owned(), JsonValue::Text(provider_id.to_owned())));
    proof {
        json::lemma_view_object(o);
        assert(json::members_of(o@) =~= new_entry(provider_id@)->Object_0);
    }
    JsonValue::Object(o)
}

/// Merges a patch into the settings of all providers.
pub fn merge_segment_provider_settings(current: &JsonValue, patch: &JsonValue) -> (r: Result<
    JsonValue,
    SegmentError,
>)
    ensures
        crate::error::json_agrees(r, merged_settings(current@, patch@)),
{
    let mut merged = match provider_settings_map(current) {
        Ok(m) => m,
        Err(e) => {
            return Err(e);
        },
    };
    match patch {
        JsonValue::Object(p) => {
            let ghost start = json::members_of(merged@);
            let ghost whole = json::members_of(p@);
            proof {
                json::lemma_view_object(*p);
                assert(whole.take(0) =~= Seq::empty());
            }
            let mut i: usize = 0;
            while i < p.len()
                invariant
                    i <= p@.len(),
                    whole == json::members_of(p@),
                    patch@ == Json::Object(whole),
                    current@ is Object,
                    settings_map(current@->Object_0) == Ok::<
                        Seq<(Seq<char>, Json)>,
                        Seq<char>,
                    >(start),
                    merged_providers(start, whole.take(i as int)) == Ok::<
                        Seq<(Seq<char>, Json)>,
                        Seq<char>,
                    >(json::members_of(merged@)),
                decreases p@.len() - i,
            {
                proof {
                    assert(whole.take(i + 1).drop_last() =~= whole.take(i as int));
                    assert(whole.take(i + 1).last() == whole[i as int]);
                }
                let id = match normalize::normalize_provider_id(p[i].0.as_str()) {
                    Ok(id) => id,
                    Err(e) => {
                        proof {
                            lemma_merged_providers_prefix_error(start, whole, i + 1);
                        }
                        return Err(e);
                    },
                };
                let entry = match json::find_member(&merged, id.as_str()) {
                    Some(v) => v.dup(),
                    None => new_provider_entry(id.as_str()),
                };
                match merge_provider_setting_entry(&entry, &p[i].1) {
                    Ok(v) => {
                        set_member(&mut merged, id.as_str(), v);
                    },
                    Err(e) => {
                        proof {
                            lemma_merged_providers_prefix_error(start, whole, i + 1);
                        }
                        return Err(e);
                    },
                }
                i += 1;
            }
            proof {
                assert(whole.take(p@.len() as int) =~= whole);
                json::lemma_view_object(merged);
            }
            Ok(JsonValue::Object(merged))
        },
        _ => Err(refuse("segment_provider_settings must be a JSON object")),
    }
}

/// The settings of the provider `anime_skip` that hold before any patch.
pub open spec fn default_anime_skip() -> Json {
    Json::Object(
        seq![
            ("enabled"@, Json::Bool(false)),
            ("kind"@, Json::Text("built_in_network"@)),
            ("label"@, Json::Text("Anime Skip"@)),
        ],
    )
}

fn default_anime_skip_value() -> (v: JsonValue)
    ensures
        v@ == default_anime_skip(),
{
    let mut o: Vec<(String, JsonValue)> = Vec::new();
    o.push(("enabled".to_owned(), JsonValue::Bool(false)));
    o.push(("kind".to_owned(), JsonValue::Text("built_in_network".to_owned())));
    o.push(("label".to_owned(), JsonValue::Text("Anime Skip".to_owned())));
    proof {
        json::lemma_view_object(o);
        assert(json::members_of(o@) =~= default_anime_skip()->Object_0);
    }
    JsonValue::Object(o)
}

/// The settings of the provider `aniskip` that hold before any patch.
pub open spec fn default_aniskip() -> Json {
    Json::Object(
        seq![
            ("enabled"@, Json::Bool(true)),
            ("kind"@, Json::Text("built_in_network"@)),
            ("label"@, Json::Text("AniSkip"@)),
            ("rate_limit_per_minute"@, Json::Number(JsonNumber::Unsigned(consts::DEFAULT_PROVIDER_RATE_LIMIT_PER_MINUTE as u64))),
        ],
    )
}

fn default_aniskip_value() -> (v: JsonValue)
    ensures
        v@ == default_aniskip(),
{
    let mut o: Vec<(String, JsonValue)> = Vec::new();
    o.push(("enabled".to_owned(), JsonValue::Bool(true)));
    o.push(("kind".to_owned(), JsonValue::Text("built_in_network".to_owned())));
    o.push(("label".to_owned(), JsonValue::Text("AniSkip".to_owned())));
    o.push(("rate_limit_per_minute".to_owned(), JsonValue::Number(JsonNumber::Unsigned(consts::DEFAULT_PROVIDER_RATE_LIMIT_PER_MINUTE as u64))));
    proof {
        json::lemma_view_object(o);
        assert(json::members_of(o@) =~= default_aniskip()->Object_0);
    }
    JsonValue::Object(o)
}

/// The settings of the provider `chapter` that hold before any patch.
pub open spec fn default_chapter() -> Json {
    Json::Object(
        seq![
            ("enabled"@, Json::Bool(true)),
            ("kind"@, Json::Text("local_metadata"@)),
            ("label"@, Json::Text("Embedded chapters"@)),
        ],
    )
}

fn default_chapter_value() -> (v: JsonValue)
    ensures
        v@ == default_chapter(),
{
    let mut o: Vec<(String, JsonValue)> = Vec::new();
    o.push(("enabled".to_owned(), JsonValue::Bool(true)));
    o.push(("kind".to_owned(), JsonValue::Text("local_metadata".to_owned())));
    o.push(("label".to_owned(), JsonValue::Text("Embedded chapters".to_owned())));
    proof {
        json::lemma_view_object(o);
        assert(json::members_of(o@) =~= default_chapter()->Object_0);
    }
    JsonValue::Object(o)
}

/// The settings of the provider `local_audio_recurring` that hold before any patch.
pub open spec fn default_local_audio_recurring() -> Json {
    Json::Object(
        seq![
            ("enabled"@, Json::Bool(false)),
            ("fingerprint_timeout_seconds"@, Json::Number(JsonNumber::Unsigned(consts::LOCAL_AUDIO_FINGERPRINT_TIMEOUT_SECONDS as u64))),
            ("kind"@, Json::Text("local_detector"@)),
            ("label"@, Json::Text("Local audio recurring detector"@)),
            ("min_repeat_count"@, Json::Number(JsonNumber::Unsigned(consts::LOCAL_AUDIO_DETECTOR_MIN_REPEAT_COUNT as u64))),
            ("min_season_files"@, Json::Number(JsonNumber::Unsigned(consts::LOCAL_AUDIO_DETECTOR_MIN_SEASON_FILES as u64))),
        ],
    )
}

fn default_local_audio_recurring_value() -> (v: JsonValue)
    ensures
        v@ == default_local_audio_recurring(),
{
    let mut o: Vec<(String, JsonValue)> = Vec::new();
    o.push(("enabled".to_owned(), JsonValue::Bool(false)));
    o.push(("fingerprint_timeout_seconds".to_owned(), JsonValue::Number(JsonNumber::Unsigned(consts::LOCAL_AUDIO_FINGERPRINT_TIMEOUT_SECONDS as u64))));
    o.push(("kind".to_owned(), JsonValue::Text("local_detector".to_owned())));
    o.push(("label".to_owned(), JsonValue::Text("Local audio recurring detector".to_owned())));
    o.push(("min_repeat_count".to_owned(), JsonValue::Number(JsonNumber::Unsigned(consts::LOCAL_AUDIO_DETECTOR_MIN_REPEAT_COUNT as u64))));
    o.push(("min_season_files".to_owned(), JsonValue::Number(JsonNumber::Unsigned(consts::LOCAL_AUDIO_DETECTOR_MIN_SEASON_FILES as u64))));
    proof {
        json::lemma_view_object(o);
        assert(json::members_of(o@) =~= default_local_audio_recurring()->Object_0);
    }
    JsonValue::Object(o)
}

/// The settings of the provider `local_visual_recurring` that hold before any patch.
pub open spec fn default_local_visual_recurring() -> Json {
    Json::Object(
        seq![
            ("black_ratio_threshold"@, Json::Number(JsonNumber::Fraction(consts::LOCAL_VISUAL_CREDITS_BLACK_RATIO_THRESHOLD))),
            ("enabled"@, Json::Bool(false)),
            ("frame_hash_max_frames"@, Json::Number(JsonNumber::Unsigned(consts::LOCAL_VISUAL_FRAME_HASH_MAX_FRAMES_PER_FILE as u64))),
            ("frame_hash_step_seconds"@, Json::Number(JsonNumber::Fraction(consts::LOCAL_VISUAL_FRAME_HASH_STEP_MICROS))),
            ("frame_hash_timeout_seconds"@, Json::Number(JsonNumber::Unsigned(consts::LOCAL_VISUAL_FRAME_HASH_TIMEOUT_SECONDS as u64))),
            ("kind"@, Json::Text("local_detector"@)),
            ("label"@, Json::Text("Local visual recurring detector"@)),
            ("max_frame_gap_seconds"@, Json::Number(JsonNumber::Fraction(consts::LOCAL_VISUAL_CREDITS_MAX_FRAME_GAP_MICROS))),
            ("min_frame_count"@, Json::Number(JsonNumber::Unsigned(consts::LOCAL_VISUAL_CREDITS_MIN_FRAME_COUNT as u64))),
            ("min_span_seconds"@, Json::Number(JsonNumber::Fraction(consts::LOCAL_VISUAL_CREDITS_MIN_SPAN_MICROS))),
            ("min_start_fraction"@, Json::Number(JsonNumber::Fraction(consts::LOCAL_VISUAL_CREDITS_MIN_START_FRACTION))),
            ("post_credit_scene_min_frames"@, Json::Number(JsonNumber::Unsigned(consts::LOCAL_VISUAL_POST_CREDIT_SCENE_MIN_FRAMES as u64))),
            ("post_credit_scene_min_span_seconds"@, Json::Number(JsonNumber::Fraction(consts::LOCAL_VISUAL_POST_CREDIT_SCENE_MIN_SPAN_MICROS))),
            ("text_ratio_threshold"@, Json::Number(JsonNumber::Fraction(consts::LOCAL_VISUAL_CREDITS_TEXT_RATIO_THRESHOLD))),
        ],
    )
}

fn default_local_visual_recurring_value() -> (v: JsonValue)
    ensures
        v@ == default_local_visual_recurring(),
{
    let mut o: Vec<(String, JsonValue)> = Vec::new();
    o.push(("black_ratio_threshold".to_owned(), JsonValue::Number(JsonNumber::Fraction(consts::LOCAL_VISUAL_CREDITS_BLACK_RATIO_THRESHOLD))));
    o.push(("enabled".to_owned(), JsonValue::Bool(false)));
    o.push(("frame_hash_max_frames".to_owned(), JsonValue::Number(JsonNumber::Unsigned(consts::LOCAL_VISUAL_FRAME_HASH_MAX_FRAMES_PER_FILE as u64))));
    o.push(("frame_hash_step_seconds".to_owned(), JsonValue::Number(JsonNumber::Fraction(consts::LOCAL_VISUAL_FRAME_HASH_STEP_MICROS))));
    o.push(("frame_hash_timeout_seconds".to_owned(), JsonValue::Number(JsonNumber::Unsigned(consts::LOCAL_VISUAL_FRAME_HASH_TIMEOUT_SECONDS as u64))));
    o.push(("kind".to_owned(), JsonValue::Text("local_detector".to_owned())));
    o.push(("label".to_owned(), JsonValue::Text("Local visual recurring detector".to_owned())));
    o.push(("max_frame_gap_seconds".to_owned(), JsonValue::Number(JsonNumber::Fraction(consts::LOCAL_VISUAL_CREDITS_MAX_FRAME_GAP_MICROS))));
    o.push(("min_frame_count".to_owned(), JsonValue::Number(JsonNumber::Unsigned(consts::LOCAL_VISUAL_CREDITS_MIN_FRAME_COUNT as u64))));
    o.push(("min_span_seconds".to_owned(), JsonValue::Number(JsonNumber::Fraction(consts::LOCAL_VISUAL_CREDITS_MIN_SPAN_MICROS))));
    o.push(("min_start_fraction".to_owned(), JsonValue::Number(JsonNumber::Fraction(consts::LOCAL_VISUAL_CREDITS_MIN_START_FRACTION))));
    o.push(("post_credit_scene_min_frames".to_owned(), JsonValue::Number(JsonNumber::Unsigned(consts::LOCAL_VISUAL_POST_CREDIT_SCENE_MIN_FRAMES as u64))));
    o.push(("post_credit_scene_min_span_seconds".to_owned(), JsonValue::Number(JsonNumber::Fraction(consts::LOCAL_VISUAL_POST_CREDIT_SCENE_MIN_SPAN_MICROS))));
    o.push(("text_ratio_threshold".to_owned(), JsonValue::Number(JsonNumber::Fraction(consts::LOCAL_VISUAL_CREDITS_TEXT_RATIO_THRESHOLD))));
    proof {
        json::lemma_view_object(o);
        assert(json::members_of(o@) =~= default_local_visual_recurring()->Object_0);
    }
    JsonValue::Object(o)
}

/// The settings of the provider `theintrodb` that hold before any patch.
pub open spec fn default_theintrodb() -> Json {
    Json::Object(
        seq![
            ("enabled"@, Json::Bool(true)),
            ("kind"@, Json::Text("built_in_network"@)),
            ("label"@, Json::Text("TheIntroDB"@)),
            ("rate_limit_per_minute"@, Json::Number(JsonNumber::Unsigned(consts::DEFAULT_PROVIDER_RATE_LIMIT_PER_MINUTE as u64))),
        ],
    )
}

fn default_theintrodb_value() -> (v: JsonValue)
    ensures
        v@ == default_theintrodb(),
{
    let mut o: Vec<(String, JsonValue)> = Vec::new();
    o.push(("enabled".to_owned(), JsonValue::Bool(true)));
    o.push(("kind".to_owned(), JsonValue::Text("built_in_network".to_owned())));
    o.push(("label".to_owned(), JsonValue::Text("TheIntroDB".to_owned())));
    o.push(("rate_limit_per_minute".to_owned(), JsonValue::Number(JsonNumber::Unsigned(consts::DEFAULT_PROVIDER_RATE_LIMIT_PER_MINUTE as u64))));
    proof {
        json::lemma_view_object(o);
        assert(json::members_of(o@) =~= default_theintrodb()->Object_0);
    }
    JsonValue::Object(o)
}

/// The settings of all providers that hold before any patch.
pub open spec fn default_settings() -> Json {
    Json::Object(
        seq![
            ("anime_skip"@, default_anime_skip()),
            ("aniskip"@, default_aniskip()),
            ("chapter"@, default_chapter()),
            ("local_audio_recurring"@, default_local_audio_recurring()),
            ("local_visual_recurring"@, default_local_visual_recurring()),
            ("theintrodb"@, default_theintrodb()),
        ],
    )
}

/// The settings of all providers that hold before any patch.
pub fn default_segment_provider_settings() -> (v: JsonValue)
    ensures
        v@ == default_settings(),
{
    let mut o: Vec<(String, JsonValue)> = Vec::new();
    o.push(("anime_skip".to_owned(), default_anime_skip_value()));
    o.push(("aniskip".to_owned(), default_aniskip_value()));
    o.push(("chapter".to_owned(), default_chapter_value()));
    o.push(("local_audio_recurring".to_owned(), default_local_audio_recurring_value()));
    o.push(("local_visual_recurring".to_owned(), default_local_visual_recurring_value()));
    o.push(("theintrodb".to_owned(), default_theintrodb_value()));
    proof {
        json::lemma_view_object(o);
        assert(json::members_of(o@) =~= default_settings()->Object_0);
    }
    JsonValue::Object(o)
}

/// The name under which a rule keeps its value.
pub open spec fn kept_name(key: Seq<char>) -> Seq<char> {
    match rule_of(key) {
        SettingRule::BaseUrl => "base_url"@,
        SettingRule::Whole { name, .. } => name@,
        SettingRule::Fraction { name, .. } => name@,
        _ => key,
    }
}

/// The lengths of the names that settings are kept under, and characters that
/// tell names of one length apart.
proof fn lemma_names()
    ensures
        "timeout_ms"@.len() == 10,
        "cache_ttl_seconds"@.len() == 17,
        "rate_limit_per_minute"@.len() == 21,
        "rate_limit_per_minute"@[0] == 'r',
        "min_repeat_count"@.len() == 16,
        "min_repeat_count"@[4] == 'r',
        "min_frame_count"@.len() == 15,
        "min_season_files"@.len() == 16,
        "min_season_files"@[4] == 's',
        "min_season_files"@[5] == 'e',
        "post_credit_scene_min_frames"@.len() == 28,
        "frame_hash_max_frames"@.len() == 21,
        "frame_hash_max_frames"@[0] == 'f',
        "fingerprint_timeout_seconds"@.len() == 27,
        "frame_hash_timeout_seconds"@.len() == 26,
        "min_span_seconds"@.len() == 16,
        "min_span_seconds"@[4] == 's',
        "min_span_seconds"@[5] == 'p',
        "min_start_fraction"@.len() == 18,
        "max_frame_gap_seconds"@.len() == 21,
        "max_frame_gap_seconds"@[0] == 'm',
        "black_ratio_threshold"@.len() == 21,
        "black_ratio_threshold"@[0] == 'b',
        "text_ratio_threshold"@.len() == 20,
        "post_credit_scene_min_span_seconds"@.len() == 34,
        "frame_hash_step_seconds"@.len() == 23,
        "enabled"@.len() == 7,
        "label"@.len() == 5,
        "kind"@.len() == 4,
        "base_url"@.len() == 8,
{
    reveal_strlit("timeout_ms");
    reveal_strlit("cache_ttl_seconds");
    reveal_strlit("rate_limit_per_minute");
    reveal_strlit("min_repeat_count");
    reveal_strlit("min_frame_count");
    reveal_strlit("min_season_files");
    reveal_strlit("post_credit_scene_min_frames");
    reveal_strlit("frame_hash_max_frames");
    reveal_strlit("fingerprint_timeout_seconds");
    reveal_strlit("frame_hash_timeout_seconds");
    reveal_strlit("min_span_seconds");
    reveal_strlit("min_start_fraction");
    reveal_strlit("max_frame_gap_seconds");
    reveal_strlit("black_ratio_threshold");
    reveal_strlit("text_ratio_threshold");
    reveal_strlit("post_credit_scene_min_span_seconds");
    reveal_strlit("frame_hash_step_seconds");
    reveal_strlit("enabled");
    reveal_strlit("label");
    reveal_strlit("kind");
    reveal_strlit("base_url");
}

/// Two rules that keep a number under one name are one rule.
proof fn lemma_one_rule_per_name(a: Seq<char>, b: Seq<char>)
    requires
        rule_of(a) is Whole || rule_of(a) is Fraction,
        !(rule_of(b) is Ignored),
        kept_name(a) == kept_name(b),
    ensures
        rule_of(a) == rule_of(b),
{
    lemma_names();
}

/// Whether what is kept for a member is what its rule admits.
pub open spec fn kept_in_range(members: Seq<(Seq<char>, Json)>, key: Seq<char>) -> bool {
    match rule_of(key) {
        SettingRule::Whole { name, lo, hi, .. } => match json::lookup(members, name@) {
            Some(v) => json::json_i64(v) matches Some(n) && lo <= n <= hi,
            None => true,
        },
        SettingRule::Fraction { name, lo, hi, .. } => match json::lookup(members, name@) {
            Some(v) => json::json_micros(v) matches Some(n) && lo <= n <= hi,
            None => true,
        },
        _ => true,
    }
}

/// Whether every number that is kept in a provider's settings is in its range.
pub open spec fn in_range(members: Seq<(Seq<char>, Json)>) -> bool {
    forall|key: Seq<char>| #[trigger] kept_in_range(members, key)
}

/// No patch takes a number of a provider's settings out of its range.
pub proof fn patch_keeps_settings_in_range(
    members: Seq<(Seq<char>, Json)>,
    patch: Seq<(Seq<char>, Json)>,
)
    requires
        in_range(members),
        patched_all(members, patch) is Ok,
    ensures
        in_range(patched_all(members, patch)->Ok_0),
    decreases patch.len(),
{
    if patch.len() > 0 {
        patch_keeps_settings_in_range(members, patch.drop_last());
        let m = patched_all(members, patch.drop_last())->Ok_0;
        lemma_patched_in_range(m, patch.last().0, patch.last().1);
    }
}

/// What a rule keeps of a value that it admits.
pub open spec fn kept_json(key: Seq<char>, value: Json) -> Json {
    match rule_of(key) {
        SettingRule::Label => Json::Text(
            text::first_chars(
                text::trim_seq(json::json_text(value)->0),
                LABEL_MAX_CHARS as int,
            ),
        ),
        SettingRule::BaseUrl => Json::Text(text::trim_seq(json::json_text(value)->0)),
        SettingRule::Whole { .. } => whole_json(json::json_i64(value)->0),
        SettingRule::Fraction { .. } => Json::Number(
            JsonNumber::Fraction(json::json_micros(value)->0),
        ),
        _ => value,
    }
}

/// An admitted member is kept under its one name; a label without text and a
/// member that the settings do not know change nothing.
pub proof fn patch_keeps_value_under_one_name(
    members: Seq<(Seq<char>, Json)>,
    key: Seq<char>,
    value: Json,
)
    requires
        patched(members, key, value) is Ok,
    ensures
        patched(members, key, value)->Ok_0 == members || (!(rule_of(key) is Ignored) && patched(
            members,
            key,
            value,
        )->Ok_0 == json::with_member(members, kept_name(key), kept_json(key, value))),
        rule_of(key) is Ignored ==> patched(members, key, value)->Ok_0 == members,
        rule_of(key) is Enabled || rule_of(key) is BaseUrl || rule_of(key) is Whole || rule_of(
            key,
        ) is Fraction ==> json::lookup(patched(members, key, value)->Ok_0, kept_name(key)) == Some(
            kept_json(key, value),
        ),
{
    json::lemma_lookup_with_member(
        members,
        kept_name(key),
        kept_json(key, value),
        kept_name(key),
    );
}

proof fn lemma_patched_in_range(members: Seq<(Seq<char>, Json)>, key: Seq<char>, value: Json)
    requires
        in_range(members),
        patched(members, key, value) is Ok,
    ensures
        in_range(patched(members, key, value)->Ok_0),
{
    let after = patched(members, key, value)->Ok_0;
    let kept = kept_json(key, value);
    patch_keeps_value_under_one_name(members, key, value);
    assert forall|k: Seq<char>| #[trigger] kept_in_range(after, k) by {
        assert(kept_in_range(members, k));
        if (rule_of(k) is Whole || rule_of(k) is Fraction) && after != members {
            json::lemma_lookup_with_member(members, kept_name(key), kept, kept_name(k));
            if kept_name(k) == kept_name(key) {
                lemma_one_rule_per_name(k, key);
            }
        }
    }
}

/// Whether a member that is admitted changes the settings that it is merged into.
spec fn changes(key: Seq<char>, value: Json) -> bool {
    match rule_of(key) {
        SettingRule::Label => json::json_text(value) matches Some(t) && text::trim_seq(t).len() > 0,
        SettingRule::Ignored => false,
        _ => true,
    }
}

/// What a member does does not rest on the settings that it is merged into.
proof fn lemma_patched(
    members: Seq<(Seq<char>, Json)>,
    others: Seq<(Seq<char>, Json)>,
    key: Seq<char>,
    value: Json,
)
    requires
        patched(others, key, value) is Ok,
    ensures
        patched(members, key, value) == Ok::<Seq<(Seq<char>, Json)>, Seq<char>>(
            if changes(key, value) {
                json::with_member(members, kept_name(key), kept_json(key, value))
            } else {
                members
            },
        ),
{
}

/// A patch that is merged into some settings is merged into any.
proof fn lemma_patched_all(
    members: Seq<(Seq<char>, Json)>,
    others: Seq<(Seq<char>, Json)>,
    patch: Seq<(Seq<char>, Json)>,
)
    requires
        patched_all(others, patch) is Ok,
    ensures
        patched_all(members, patch) is Ok,
    decreases patch.len(),
{
    if patch.len() > 0 {
        let p = patch.drop_last();
        lemma_patched_all(members, others, p);
        lemma_patched(
            patched_all(members, p)->Ok_0,
            patched_all(others, p)->Ok_0,
            patch.last().0,
            patch.last().1,
        );
    }
}

/// A value that is set again behind a patch need not be set before it.
proof fn lemma_set_behind_patch(
    members: Seq<(Seq<char>, Json)>,
    key: Seq<char>,
    value: Json,
    patch: Seq<(Seq<char>, Json)>,
)
    requires
        patched_all(members, patch) is Ok,
    ensures
        patched_all(json::with_member(members, key, value), patch) is Ok,
        json::with_member(
            patched_all(json::with_member(members, key, value), patch)->Ok_0,
            key,
            value,
        ) == json::with_member(patched_all(members, patch)->Ok_0, key, value),
    decreases patch.len(),
{
    let set = json::with_member(members, key, value);
    lemma_patched_all(set, members, patch);
    if patch.len() == 0 {
        json::lemma_set_again(members, key, value, value);
    } else {
        let p = patch.drop_last();
        lemma_set_behind_patch(members, key, value, p);
        let x = patched_all(set, p)->Ok_0;
        let y = patched_all(members, p)->Ok_0;
        let other = kept_name(patch.last().0);
        let kept = kept_json(patch.last().0, patch.last().1);
        lemma_patched(x, y, patch.last().0, patch.last().1);
        lemma_patched(y, y, patch.last().0, patch.last().1);
        if changes(patch.last().0, patch.last().1) {
            if other == key {
                json::lemma_set_again(x, key, kept, value);
                json::lemma_set_again(y, key, kept, value);
            } else {
                json::lemma_set_behind(x, key, value, other, kept);
                json::lemma_set_behind(y, key, value, other, kept);
            }
        }
    }
}

proof fn lemma_patch_twice(members: Seq<(Seq<char>, Json)>, patch: Seq<(Seq<char>, Json)>)
    requires
        patched_all(members, patch) is Ok,
    ensures
        patched_all(patched_all(members, patch)->Ok_0, patch) == patched_all(members, patch),
    decreases patch.len(),
{
    if patch.len() > 0 {
        let p = patch.drop_last();
        let m = patched_all(members, p)->Ok_0;
        lemma_patch_twice(members, p);
        lemma_patched(m, m, patch.last().0, patch.last().1);
        if changes(patch.last().0, patch.last().1) {
            let key = kept_name(patch.last().0);
            let value = kept_json(patch.last().0, patch.last().1);
            lemma_set_behind_patch(m, key, value, p);
            let again = patched_all(json::with_member(m, key, value), p)->Ok_0;
            lemma_patched(again, m, patch.last().0, patch.last().1);
        }
    }
}

/// A patch that is merged twice into one provider's settings gives what it gives
/// once.
pub proof fn merging_twice_is_merging_once(current: Json, patch: Json)
    requires
        merged_entry(current, patch) is Ok,
    ensures
        merged_entry(merged_entry(current, patch)->Ok_0, patch) == merged_entry(current, patch),
{
    match patch {
        Json::Bool(b) => {
            json::lemma_set_again(
                json::json_members(current),
                "enabled"@,
                Json::Bool(b),
                Json::Bool(b),
            );
        },
        Json::Object(p) => {
            lemma_patch_twice(json::json_members(current), p);
        },
        _ => {},
    }
}

/// Settings that are merged into others leave the providers that they do not
/// name as they were.
pub proof fn merge_leaves_other_providers(
    merged: Seq<(Seq<char>, Json)>,
    patch: Seq<(Seq<char>, Json)>,
    other: Seq<char>,
)
    requires
        merged_providers(merged, patch) is Ok,
        forall|i: int|
            0 <= i < patch.len() ==> normalize::provider_id_of(#[trigger] patch[i].0) != Ok::<
                Seq<char>,
                Seq<char>,
            >(other),
    ensures
        json::lookup(merged_providers(merged, patch)->Ok_0, other) == json::lookup(
            merged,
            other,
        ),
    decreases patch.len(),
{
    if patch.len() > 0 {
        let p = patch.drop_last();
        assert forall|i: int| 0 <= i < p.len() implies normalize::provider_id_of(#[trigger] p[i].0)
            != Ok::<Seq<char>, Seq<char>>(other) by {
            assert(p[i] == patch[i]);
        }
        merge_leaves_other_providers(merged, p, other);
        let m = merged_providers(merged, p)->Ok_0;
        let id = normalize::provider_id_of(patch.last().0)->Ok_0;
        let current = match json::lookup(m, id) {
            Some(v) => v,
            None => new_entry(id),
        };
        let v = merged_entry(current, patch.last().1)->Ok_0;
        json::lemma_lookup_with_member(m, id, v, other);
    }
}

proof fn lemma_names_of_limits()
    ensures
        "timeout_ms"@ != "enabled"@,
        "timeout_ms"@ != "label"@,
        "timeout_ms"@ != "kind"@,
        "timeout_ms"@ != "base_url"@,
        "timeout_ms"@ != "baseUrl"@,
        "timeoutMs"@ != "enabled"@,
        "timeoutMs"@ != "label"@,
        "timeoutMs"@ != "kind"@,
        "timeoutMs"@ != "base_url"@,
        "timeoutMs"@ != "baseUrl"@,
        "timeoutMs"@ != "timeout_ms"@,
        "cache_ttl_seconds"@ != "enabled"@,
        "cache_ttl_seconds"@ != "label"@,
        "cache_ttl_seconds"@ != "kind"@,
        "cache_ttl_seconds"@ != "base_url"@,
        "cache_ttl_seconds"@ != "baseUrl"@,
        "cache_ttl_seconds"@ != "timeout_ms"@,
        "cache_ttl_seconds"@ != "timeoutMs"@,
        "cacheTtlSeconds"@ != "enabled"@,
        "cacheTtlSeconds"@ != "label"@,
        "cacheTtlSeconds"@ != "kind"@,
        "cacheTtlSeconds"@ != "base_url"@,
        "cacheTtlSeconds"@ != "baseUrl"@,
        "cacheTtlSeconds"@ != "timeout_ms"@,
        "cacheTtlSeconds"@ != "timeoutMs"@,
        "cacheTtlSeconds"@ != "cache_ttl_seconds"@,
        "rate_limit_per_minute"@ != "enabled"@,
        "rate_limit_per_minute"@ != "label"@,
        "rate_limit_per_minute"@ != "kind"@,
        "rate_limit_per_minute"@ != "base_url"@,
        "rate_limit_per_minute"@ != "baseUrl"@,
        "rate_limit_per_minute"@ != "timeout_ms"@,
        "rate_limit_per_minute"@ != "timeoutMs"@,
        "rate_limit_per_minute"@ != "cache_ttl_seconds"@,
        "rate_limit_per_minute"@ != "cacheTtlSeconds"@,
        "rateLimitPerMinute"@ != "enabled"@,
        "rateLimitPerMinute"@ != "label"@,
        "rateLimitPerMinute"@ != "kind"@,
        "rateLimitPerMinute"@ != "base_url"@,
        "rateLimitPerMinute"@ != "baseUrl"@,
        "rateLimitPerMinute"@ != "timeout_ms"@,
        "rateLimitPerMinute"@ != "timeoutMs"@,
        "rateLimitPerMinute"@ != "cache_ttl_seconds"@,
        "rateLimitPerMinute"@ != "cacheTtlSeconds"@,
        "rateLimitPerMinute"@ != "rate_limit_per_minute"@,
        "min_repeat_count"@ != "enabled"@,
        "min_repeat_count"@ != "label"@,
        "min_repeat_count"@ != "kind"@,
        "min_repeat_count"@ != "base_url"@,
        "min_repeat_count"@ != "baseUrl"@,
        "min_repeat_count"@ != "timeout_ms"@,
        "min_repeat_count"@ != "timeoutMs"@,
        "min_repeat_count"@ != "cache_ttl_seconds"@,
        "min_repeat_count"@ != "cacheTtlSeconds"@,
        "min_repeat_count"@ != "rate_limit_per_minute"@,
        "min_repeat_count"@ != "rateLimitPerMinute"@,
        "minRepeatCount"@ != "enabled"@,
        "minRepeatCount"@ != "label"@,
        "minRepeatCount"@ != "kind"@,
        "minRepeatCount"@ != "base_url"@,
        "minRepeatCount"@ != "baseUrl"@,
        "minRepeatCount"@ != "timeout_ms"@,
        "minRepeatCount"@ != "timeoutMs"@,
        "minRepeatCount"@ != "cache_ttl_seconds"@,
        "minRepeatCount"@ != "cacheTtlSeconds"@,
        "minRepeatCount"@ != "rate_limit_per_minute"@,
        "minRepeatCount"@ != "rateLimitPerMinute"@,
        "minRepeatCount"@ != "min_repeat_count"@,
        "min_frame_count"@ != "enabled"@,
        "min_frame_count"@ != "label"@,
        "min_frame_count"@ != "kind"@,
        "min_frame_count"@ != "base_url"@,
        "min_frame_count"@ != "baseUrl"@,
        "min_frame_count"@ != "timeout_ms"@,
        "min_frame_count"@ != "timeoutMs"@,
        "min_frame_count"@ != "cache_ttl_seconds"@,
        "min_frame_count"@ != "cacheTtlSeconds"@,
        "min_frame_count"@ != "rate_limit_per_minute"@,
        "min_frame_count"@ != "rateLimitPerMinute"@,
        "min_frame_count"@ != "min_repeat_count"@,
        "min_frame_count"@ != "minRepeatCount"@,
        "minFrameCount"@ != "enabled"@,
        "minFrameCount"@ != "label"@,
        "minFrameCount"@ != "kind"@,
        "minFrameCount"@ != "base_url"@,
        "minFrameCount"@ != "baseUrl"@,
        "minFrameCount"@ != "timeout_ms"@,
        "minFrameCount"@ != "timeoutMs"@,
        "minFrameCount"@ != "cache_ttl_seconds"@,
        "minFrameCount"@ != "cacheTtlSeconds"@,
        "minFrameCount"@ != "rate_limit_per_minute"@,
        "minFrameCount"@ != "rateLimitPerMinute"@,
        "minFrameCount"@ != "min_repeat_count"@,
        "minFrameCount"@ != "minRepeatCount"@,
        "minFrameCount"@ != "min_frame_count"@,
{
    reveal_strlit("enabled");
    reveal_strlit("label");
    reveal_strlit("kind");
    reveal_strlit("base_url");
    reveal_strlit("baseUrl");
    reveal_strlit("timeout_ms");
    reveal_strlit("timeoutMs");
    reveal_strlit("cache_ttl_seconds");
    reveal_strlit("cacheTtlSeconds");
    reveal_strlit("rate_limit_per_minute");
    reveal_strlit("rateLimitPerMinute");
    reveal_strlit("min_repeat_count");
    reveal_strlit("minRepeatCount");
    reveal_strlit("min_frame_count");
    reveal_strlit("minFrameCount");
    assert("enabled"@.len() == 7);
    assert("label"@.len() == 5);
    assert("kind"@.len() == 4);
    assert("base_url"@.len() == 8);
    assert("baseUrl"@.len() == 7);
    assert("timeout_ms"@.len() == 10);
    assert("timeoutMs"@.len() == 9);
    assert("cache_ttl_seconds"@.len() == 17);
    assert("cacheTtlSeconds"@.len() == 15);
    assert("rate_limit_per_minute"@.len() == 21);
    assert("rateLimitPerMinute"@.len() == 18);
    assert("min_repeat_count"@.len() == 16);
    assert("minRepeatCount"@.len() == 14);
    assert("min_frame_count"@.len() == 15);
    assert("minFrameCount"@.len() == 13);
    assert("min_frame_count"@[0] == 'm');
    assert("cacheTtlSeconds"@[0] == 'c');
}

/// What a patch sets of a provider's limits, and of how often something must repeat, is
/// admitted just within its range, and then kept under its one name.
#[verifier::spinoff_prover]
pub proof fn limits_are_admitted_in_their_range(members: Seq<(Seq<char>, Json)>, key: Seq<char>, n: i64)
    ensures
        key == "timeout_ms"@ || key == "timeoutMs"@ ==> {
            let r = patched(members, key, whole_json(n));
            &&& r is Ok <==> 250 <= n <= 30_000
            &&& r is Ok ==> json::lookup(r->Ok_0, "timeout_ms"@) == Some(whole_json(n))
        },
        key == "cache_ttl_seconds"@ || key == "cacheTtlSeconds"@ ==> {
            let r = patched(members, key, whole_json(n));
            &&& r is Ok <==> 0 <= n <= 2_592_000
            &&& r is Ok ==> json::lookup(r->Ok_0, "cache_ttl_seconds"@) == Some(whole_json(n))
        },
        key == "rate_limit_per_minute"@ || key == "rateLimitPerMinute"@ ==> {
            let r = patched(members, key, whole_json(n));
            &&& r is Ok <==> 1 <= n <= 600
            &&& r is Ok ==> json::lookup(r->Ok_0, "rate_limit_per_minute"@) == Some(whole_json(n))
        },
        key == "min_repeat_count"@ || key == "minRepeatCount"@ ==> {
            let r = patched(members, key, whole_json(n));
            &&& r is Ok <==> 2 <= n <= 20
            &&& r is Ok ==> json::lookup(r->Ok_0, "min_repeat_count"@) == Some(whole_json(n))
        },
        key == "min_frame_count"@ || key == "minFrameCount"@ ==> {
            let r = patched(members, key, whole_json(n));
            &&& r is Ok <==> 2 <= n <= 20
            &&& r is Ok ==> json::lookup(r->Ok_0, "min_frame_count"@) == Some(whole_json(n))
        },
{
    lemma_names_of_limits();
    json::lemma_lookup_with_member(members, "timeout_ms"@, whole_json(n), "timeout_ms"@);
    json::lemma_lookup_with_member(members, "cache_ttl_seconds"@, whole_json(n), "cache_ttl_seconds"@);
    json::lemma_lookup_with_member(members, "rate_limit_per_minute"@, whole_json(n), "rate_limit_per_minute"@);
    json::lemma_lookup_with_member(members, "min_repeat_count"@, whole_json(n), "min_repeat_count"@);
    json::lemma_lookup_with_member(members, "min_frame_count"@, whole_json(n), "min_frame_count"@);
}

proof fn lemma_names_of_counts()
    ensures
        "min_season_files"@ != "enabled"@,
        "min_season_files"@ != "label"@,
        "min_season_files"@ != "kind"@,
        "min_season_files"@ != "base_url"@,
        "min_season_files"@ != "baseUrl"@,
        "min_season_files"@ != "timeout_ms"@,
        "min_season_files"@ != "timeoutMs"@,
        "min_season_files"@ != "cache_ttl_seconds"@,
        "min_season_files"@ != "cacheTtlSeconds"@,
        "min_season_files"@ != "rate_limit_per_minute"@,
        "min_season_files"@ != "rateLimitPerMinute"@,
        "min_season_files"@ != "min_repeat_count"@,
        "min_season_files"@ != "minRepeatCount"@,
        "min_season_files"@ != "min_frame_count"@,
        "min_season_files"@ != "minFrameCount"@,
        "minSeasonFiles"@ != "enabled"@,
        "minSeasonFiles"@ != "label"@,
        "minSeasonFiles"@ != "kind"@,
        "minSeasonFiles"@ != "base_url"@,
        "minSeasonFiles"@ != "baseUrl"@,
        "minSeasonFiles"@ != "timeout_ms"@,
        "minSeasonFiles"@ != "timeoutMs"@,
        "minSeasonFiles"@ != "cache_ttl_seconds"@,
        "minSeasonFiles"@ != "cacheTtlSeconds"@,
        "minSeasonFiles"@ != "rate_limit_per_minute"@,
        "minSeasonFiles"@ != "rateLimitPerMinute"@,
        "minSeasonFiles"@ != "min_repeat_count"@,
        "minSeasonFiles"@ != "minRepeatCount"@,
        "minSeasonFiles"@ != "min_frame_count"@,
        "minSeasonFiles"@ != "minFrameCount"@,
        "minSeasonFiles"@ != "min_season_files"@,
        "post_credit_scene_min_frames"@ != "enabled"@,
        "post_credit_scene_min_frames"@ != "label"@,
        "post_credit_scene_min_frames"@ != "kind"@,
        "post_credit_scene_min_frames"@ != "base_url"@,
        "post_credit_scene_min_frames"@ != "baseUrl"@,
        "post_credit_scene_min_frames"@ != "timeout_ms"@,
        "post_credit_scene_min_frames"@ != "timeoutMs"@,
        "post_credit_scene_min_frames"@ != "cache_ttl_seconds"@,
        "post_credit_scene_min_frames"@ != "cacheTtlSeconds"@,
        "post_credit_scene_min_frames"@ != "rate_limit_per_minute"@,
        "post_credit_scene_min_frames"@ != "rateLimitPerMinute"@,
        "post_credit_scene_min_frames"@ != "min_repeat_count"@,
        "post_credit_scene_min_frames"@ != "minRepeatCount"@,
        "post_credit_scene_min_frames"@ != "min_frame_count"@,
        "post_credit_scene_min_frames"@ != "minFrameCount"@,
        "post_credit_scene_min_frames"@ != "min_season_files"@,
        "post_credit_scene_min_frames"@ != "minSeasonFiles"@,
        "postCreditSceneMinFrames"@ != "enabled"@,
        "postCreditSceneMinFrames"@ != "label"@,
        "postCreditSceneMinFrames"@ != "kind"@,
        "postCreditSceneMinFrames"@ != "base_url"@,
        "postCreditSceneMinFrames"@ != "baseUrl"@,
        "postCreditSceneMinFrames"@ != "timeout_ms"@,
        "postCreditSceneMinFrames"@ != "timeoutMs"@,
        "postCreditSceneMinFrames"@ != "cache_ttl_seconds"@,
        "postCreditSceneMinFrames"@ != "cacheTtlSeconds"@,
        "postCreditSceneMinFrames"@ != "rate_limit_per_minute"@,
        "postCreditSceneMinFrames"@ != "rateLimitPerMinute"@,
        "postCreditSceneMinFrames"@ != "min_repeat_count"@,
        "postCreditSceneMinFrames"@ != "minRepeatCount"@,
        "postCreditSceneMinFrames"@ != "min_frame_count"@,
        "postCreditSceneMinFrames"@ != "minFrameCount"@,
        "postCreditSceneMinFrames"@ != "min_season_files"@,
        "postCreditSceneMinFrames"@ != "minSeasonFiles"@,
        "postCreditSceneMinFrames"@ != "post_credit_scene_min_frames"@,
        "frame_hash_max_frames"@ != "enabled"@,
        "frame_hash_max_frames"@ != "label"@,
        "frame_hash_max_frames"@ != "kind"@,
        "frame_hash_max_frames"@ != "base_url"@,
        "frame_hash_max_frames"@ != "baseUrl"@,
        "frame_hash_max_frames"@ != "timeout_ms"@,
        "frame_hash_max_frames"@ != "timeoutMs"@,
        "frame_hash_max_frames"@ != "cache_ttl_seconds"@,
        "frame_hash_max_frames"@ != "cacheTtlSeconds"@,
        "frame_hash_max_frames"@ != "rate_limit_per_minute"@,
        "frame_hash_max_frames"@ != "rateLimitPerMinute"@,
        "frame_hash_max_frames"@ != "min_repeat_count"@,
        "frame_hash_max_frames"@ != "minRepeatCount"@,
        "frame_hash_max_frames"@ != "min_frame_count"@,
        "frame_hash_max_frames"@ != "minFrameCount"@,
        "frame_hash_max_frames"@ != "min_season_files"@,
        "frame_hash_max_frames"@ != "minSeasonFiles"@,
        "frame_hash_max_frames"@ != "post_credit_scene_min_frames"@,
        "frame_hash_max_frames"@ != "postCreditSceneMinFrames"@,
        "frameHashMaxFrames"@ != "enabled"@,
        "frameHashMaxFrames"@ != "label"@,
        "frameHashMaxFrames"@ != "kind"@,
        "frameHashMaxFrames"@ != "base_url"@,
        "frameHashMaxFrames"@ != "baseUrl"@,
        "frameHashMaxFrames"@ != "timeout_ms"@,
        "frameHashMaxFrames"@ != "timeoutMs"@,
        "frameHashMaxFrames"@ != "cache_ttl_seconds"@,
        "frameHashMaxFrames"@ != "cacheTtlSeconds"@,
        "frameHashMaxFrames"@ != "rate_limit_per_minute"@,
        "frameHashMaxFrames"@ != "rateLimitPerMinute"@,
        "frameHashMaxFrames"@ != "min_repeat_count"@,
        "frameHashMaxFrames"@ != "minRepeatCount"@,
        "frameHashMaxFrames"@ != "min_frame_count"@,
        "frameHashMaxFrames"@ != "minFrameCount"@,
        "frameHashMaxFrames"@ != "min_season_files"@,
        "frameHashMaxFrames"@ != "minSeasonFiles"@,
        "frameHashMaxFrames"@ != "post_credit_scene_min_frames"@,
        "frameHashMaxFrames"@ != "postCreditSceneMinFrames"@,
        "frameHashMaxFrames"@ != "frame_hash_max_frames"@,
        "fingerprint_timeout_seconds"@ != "enabled"@,
        "fingerprint_timeout_seconds"@ != "label"@,
        "fingerprint_timeout_seconds"@ != "kind"@,
        "fingerprint_timeout_seconds"@ != "base_url"@,
        "fingerprint_timeout_seconds"@ != "baseUrl"@,
        "fingerprint_timeout_seconds"@ != "timeout_ms"@,
        "fingerprint_timeout_seconds"@ != "timeoutMs"@,
        "fingerprint_timeout_seconds"@ != "cache_ttl_seconds"@,
        "fingerprint_timeout_seconds"@ != "cacheTtlSeconds"@,
        "fingerprint_timeout_seconds"@ != "rate_limit_per_minute"@,
        "fingerprint_timeout_seconds"@ != "rateLimitPerMinute"@,
        "fingerprint_timeout_seconds"@ != "min_repeat_count"@,
        "fingerprint_timeout_seconds"@ != "minRepeatCount"@,
        "fingerprint_timeout_seconds"@ != "min_frame_count"@,
        "fingerprint_timeout_seconds"@ != "minFrameCount"@,
        "fingerprint_timeout_seconds"@ != "min_season_files"@,
        "fingerprint_timeout_seconds"@ != "minSeasonFiles"@,
        "fingerprint_timeout_seconds"@ != "post_credit_scene_min_frames"@,
        "fingerprint_timeout_seconds"@ != "postCreditSceneMinFrames"@,
        "fingerprint_timeout_seconds"@ != "frame_hash_max_frames"@,
        "fingerprint_timeout_seconds"@ != "frameHashMaxFrames"@,
        "fingerprintTimeoutSeconds"@ != "enabled"@,
        "fingerprintTimeoutSeconds"@ != "label"@,
        "fingerprintTimeoutSeconds"@ != "kind"@,
        "fingerprintTimeoutSeconds"@ != "base_url"@,
        "fingerprintTimeoutSeconds"@ != "baseUrl"@,
        "fingerprintTimeoutSeconds"@ != "timeout_ms"@,
        "fingerprintTimeoutSeconds"@ != "timeoutMs"@,
        "fingerprintTimeoutSeconds"@ != "cache_ttl_seconds"@,
        "fingerprintTimeoutSeconds"@ != "cacheTtlSeconds"@,
        "fingerprintTimeoutSeconds"@ != "rate_limit_per_minute"@,
        "fingerprintTimeoutSeconds"@ != "rateLimitPerMinute"@,
        "fingerprintTimeoutSeconds"@ != "min_repeat_count"@,
        "fingerprintTimeoutSeconds"@ != "minRepeatCount"@,
        "fingerprintTimeoutSeconds"@ != "min_frame_count"@,
        "fingerprintTimeoutSeconds"@ != "minFrameCount"@,
        "fingerprintTimeoutSeconds"@ != "min_season_files"@,
        "fingerprintTimeoutSeconds"@ != "minSeasonFiles"@,
        "fingerprintTimeoutSeconds"@ != "post_credit_scene_min_frames"@,
        "fingerprintTimeoutSeconds"@ != "postCreditSceneMinFrames"@,
        "fingerprintTimeoutSeconds"@ != "frame_hash_max_frames"@,
        "fingerprintTimeoutSeconds"@ != "frameHashMaxFrames"@,
        "fingerprintTimeoutSeconds"@ != "fingerprint_timeout_seconds"@,
        "frame_hash_timeout_seconds"@ != "enabled"@,
        "frame_hash_timeout_seconds"@ != "label"@,
        "frame_hash_timeout_seconds"@ != "kind"@,
        "frame_hash_timeout_seconds"@ != "base_url"@,
        "frame_hash_timeout_seconds"@ != "baseUrl"@,
        "frame_hash_timeout_seconds"@ != "timeout_ms"@,
        "frame_hash_timeout_seconds"@ != "timeoutMs"@,
        "frame_hash_timeout_seconds"@ != "cache_ttl_seconds"@,
        "frame_hash_timeout_seconds"@ != "cacheTtlSeconds"@,
        "frame_hash_timeout_seconds"@ != "rate_limit_per_minute"@,
        "frame_hash_timeout_seconds"@ != "rateLimitPerMinute"@,
        "frame_hash_timeout_seconds"@ != "min_repeat_count"@,
        "frame_hash_timeout_seconds"@ != "minRepeatCount"@,
        "frame_hash_timeout_seconds"@ != "min_frame_count"@,
        "frame_hash_timeout_seconds"@ != "minFrameCount"@,
        "frame_hash_timeout_seconds"@ != "min_season_files"@,
        "frame_hash_timeout_seconds"@ != "minSeasonFiles"@,
        "frame_hash_timeout_seconds"@ != "post_credit_scene_min_frames"@,
        "frame_hash_timeout_seconds"@ != "postCreditSceneMinFrames"@,
        "frame_hash_timeout_seconds"@ != "frame_hash_max_frames"@,
        "frame_hash_timeout_seconds"@ != "frameHashMaxFrames"@,
        "frame_hash_timeout_seconds"@ != "fingerprint_timeout_seconds"@,
        "frame_hash_timeout_seconds"@ != "fingerprintTimeoutSeconds"@,
        "frameHashTimeoutSeconds"@ != "enabled"@,
        "frameHashTimeoutSeconds"@ != "label"@,
        "frameHashTimeoutSeconds"@ != "kind"@,
        "frameHashTimeoutSeconds"@ != "base_url"@,
        "frameHashTimeoutSeconds"@ != "baseUrl"@,
        "frameHashTimeoutSeconds"@ != "timeout_ms"@,
        "frameHashTimeoutSeconds"@ != "timeoutMs"@,
        "frameHashTimeoutSeconds"@ != "cache_ttl_seconds"@,
        "frameHashTimeoutSeconds"@ != "cacheTtlSeconds"@,
        "frameHashTimeoutSeconds"@ != "rate_limit_per_minute"@,
        "frameHashTimeoutSeconds"@ != "rateLimitPerMinute"@,
        "frameHashTimeoutSeconds"@ != "min_repeat_count"@,
        "frameHashTimeoutSeconds"@ != "minRepeatCount"@,
        "frameHashTimeoutSeconds"@ != "min_frame_count"@,
        "frameHashTimeoutSeconds"@ != "minFrameCount"@,
        "frameHashTimeoutSeconds"@ != "min_season_files"@,
        "frameHashTimeoutSeconds"@ != "minSeasonFiles"@,
        "frameHashTimeoutSeconds"@ != "post_credit_scene_min_frames"@,
        "frameHashTimeoutSeconds"@ != "postCreditSceneMinFrames"@,
        "frameHashTimeoutSeconds"@ != "frame_hash_max_frames"@,
        "frameHashTimeoutSeconds"@ != "frameHashMaxFrames"@,
        "frameHashTimeoutSeconds"@ != "fingerprint_timeout_seconds"@,
        "frameHashTimeoutSeconds"@ != "fingerprintTimeoutSeconds"@,
        "frameHashTimeoutSeconds"@ != "frame_hash_timeout_seconds"@,
{
    reveal_strlit("enabled");
    reveal_strlit("label");
    reveal_strlit("kind");
    reveal_strlit("base_url");
    reveal_strlit("baseUrl");
    reveal_strlit("timeout_ms");
    reveal_strlit("timeoutMs");
    reveal_strlit("cache_ttl_seconds");
    reveal_strlit("cacheTtlSeconds");
    reveal_strlit("rate_limit_per_minute");
    reveal_strlit("rateLimitPerMinute");
    reveal_strlit("min_repeat_count");
    reveal_strlit("minRepeatCount");
    reveal_strlit("min_frame_count");
    reveal_strlit("minFrameCount");
    reveal_strlit("min_season_files");
    reveal_strlit("minSeasonFiles");
    reveal_strlit("post_credit_scene_min_frames");
    reveal_strlit("postCreditSceneMinFrames");
    reveal_strlit("frame_hash_max_frames");
    reveal_strlit("frameHashMaxFrames");
    reveal_strlit("fingerprint_timeout_seconds");
    reveal_strlit("fingerprintTimeoutSeconds");
    reveal_strlit("frame_hash_timeout_seconds");
    reveal_strlit("frameHashTimeoutSeconds");
    assert("enabled"@.len() == 7);
    assert("label"@.len() == 5);
    assert("kind"@.len() == 4);
    assert("base_url"@.len() == 8);
    assert("baseUrl"@.len() == 7);
    assert("timeout_ms"@.len() == 10);
    assert("timeoutMs"@.len() == 9);
    assert("cache_ttl_seconds"@.len() == 17);
    assert("cacheTtlSeconds"@.len() == 15);
    assert("rate_limit_per_minute"@.len() == 21);
    assert("rateLimitPerMinute"@.len() == 18);
    assert("min_repeat_count"@.len() == 16);
    assert("minRepeatCount"@.len() == 14);
    assert("min_frame_count"@.len() == 15);
    assert("minFrameCount"@.len() == 13);
    assert("min_season_files"@.len() == 16);
    assert("minSeasonFiles"@.len() == 14);
    assert("post_credit_scene_min_frames"@.len() == 28);
    assert("postCreditSceneMinFrames"@.len() == 24);
    assert("frame_hash_max_frames"@.len() == 21);
    assert("frameHashMaxFrames"@.len() == 18);
    assert("fingerprint_timeout_seconds"@.len() == 27);
    assert("fingerprintTimeoutSeconds"@.len() == 25);
    assert("frame_hash_timeout_seconds"@.len() == 26);
    assert("frameHashTimeoutSeconds"@.len() == 23);
    assert("min_season_files"@[4] == 's');
    assert("min_repeat_count"@[4] == 'r');
    assert("minSeasonFiles"@[3] == 'S');
    assert("minRepeatCount"@[3] == 'R');
    assert("frame_hash_max_frames"@[0] == 'f');
    assert("rate_limit_per_minute"@[0] == 'r');
    assert("frameHashMaxFrames"@[0] == 'f');
    assert("rateLimitPerMinute"@[0] == 'r');
}

/// What a patch sets of the detectors' counts and of their time is admitted just within
/// its range, and then kept under its one name.
#[verifier::spinoff_prover]
pub proof fn counts_are_admitted_in_their_range(members: Seq<(Seq<char>, Json)>, key: Seq<char>, n: i64)
    ensures
        key == "min_season_files"@ || key == "minSeasonFiles"@ ==> {
            let r = patched(members, key, whole_json(n));
            &&& r is Ok <==> 2 <= n <= 50
            &&& r is Ok ==> json::lookup(r->Ok_0, "min_season_files"@) == Some(whole_json(n))
        },
        key == "post_credit_scene_min_frames"@ || key == "postCreditSceneMinFrames"@ ==> {
            let r = patched(members, key, whole_json(n));
            &&& r is Ok <==> 1 <= n <= 20
            &&& r is Ok ==> json::lookup(r->Ok_0, "post_credit_scene_min_frames"@) == Some(whole_json(n))
        },
        key == "frame_hash_max_frames"@ || key == "frameHashMaxFrames"@ ==> {
            let r = patched(members, key, whole_json(n));
            &&& r is Ok <==> 10 <= n <= 500
            &&& r is Ok ==> json::lookup(r->Ok_0, "frame_hash_max_frames"@) == Some(whole_json(n))
        },
        key == "fingerprint_timeout_seconds"@ || key == "fingerprintTimeoutSeconds"@ ==> {
            let r = patched(members, key, whole_json(n));
            &&& r is Ok <==> 5 <= n <= 600
            &&& r is Ok ==> json::lookup(r->Ok_0, "fingerprint_timeout_seconds"@) == Some(whole_json(n))
        },
        key == "frame_hash_timeout_seconds"@ || key == "frameHashTimeoutSeconds"@ ==> {
            let r = patched(members, key, whole_json(n));
            &&& r is Ok <==> 5 <= n <= 900
            &&& r is Ok ==> json::lookup(r->Ok_0, "frame_hash_timeout_seconds"@) == Some(whole_json(n))
        },
{
    lemma_names_of_counts();
    json::lemma_lookup_with_member(members, "min_season_files"@, whole_json(n), "min_season_files"@);
    json::lemma_lookup_with_member(members, "post_credit_scene_min_frames"@, whole_json(n), "post_credit_scene_min_frames"@);
    json::lemma_lookup_with_member(members, "frame_hash_max_frames"@, whole_json(n), "frame_hash_max_frames"@);
    json::lemma_lookup_with_member(members, "fingerprint_timeout_seconds"@, whole_json(n), "fingerprint_timeout_seconds"@);
    json::lemma_lookup_with_member(members, "frame_hash_timeout_seconds"@, whole_json(n), "frame_hash_timeout_seconds"@);
}

proof fn lemma_names_of_ratios()
    ensures
        "min_span_seconds"@ != "enabled"@,
        "min_span_seconds"@ != "label"@,
        "min_span_seconds"@ != "kind"@,
        "min_span_seconds"@ != "base_url"@,
        "min_span_seconds"@ != "baseUrl"@,
        "min_span_seconds"@ != "timeout_ms"@,
        "min_span_seconds"@ != "timeoutMs"@,
        "min_span_seconds"@ != "cache_ttl_seconds"@,
        "min_span_seconds"@ != "cacheTtlSeconds"@,
        "min_span_seconds"@ != "rate_limit_per_minute"@,
        "min_span_seconds"@ != "rateLimitPerMinute"@,
        "min_span_seconds"@ != "min_repeat_count"@,
        "min_span_seconds"@ != "minRepeatCount"@,
        "min_span_seconds"@ != "min_frame_count"@,
        "min_span_seconds"@ != "minFrameCount"@,
        "min_span_seconds"@ != "min_season_files"@,
        "min_span_seconds"@ != "minSeasonFiles"@,
        "min_span_seconds"@ != "post_credit_scene_min_frames"@,
        "min_span_seconds"@ != "postCreditSceneMinFrames"@,
        "min_span_seconds"@ != "frame_hash_max_frames"@,
        "min_span_seconds"@ != "frameHashMaxFrames"@,
        "min_span_seconds"@ != "fingerprint_timeout_seconds"@,
        "min_span_seconds"@ != "fingerprintTimeoutSeconds"@,
        "min_span_seconds"@ != "frame_hash_timeout_seconds"@,
        "min_span_seconds"@ != "frameHashTimeoutSeconds"@,
        "minSpanSeconds"@ != "enabled"@,
        "minSpanSeconds"@ != "label"@,
        "minSpanSeconds"@ != "kind"@,
        "minSpanSeconds"@ != "base_url"@,
        "minSpanSeconds"@ != "baseUrl"@,
        "minSpanSeconds"@ != "timeout_ms"@,
        "minSpanSeconds"@ != "timeoutMs"@,
        "minSpanSeconds"@ != "cache_ttl_seconds"@,
        "minSpanSeconds"@ != "cacheTtlSeconds"@,
        "minSpanSeconds"@ != "rate_limit_per_minute"@,
        "minSpanSeconds"@ != "rateLimitPerMinute"@,
        "minSpanSeconds"@ != "min_repeat_count"@,
        "minSpanSeconds"@ != "minRepeatCount"@,
        "minSpanSeconds"@ != "min_frame_count"@,
        "minSpanSeconds"@ != "minFrameCount"@,
        "minSpanSeconds"@ != "min_season_files"@,
        "minSpanSeconds"@ != "minSeasonFiles"@,
        "minSpanSeconds"@ != "post_credit_scene_min_frames"@,
        "minSpanSeconds"@ != "postCreditSceneMinFrames"@,
        "minSpanSeconds"@ != "frame_hash_max_frames"@,
        "minSpanSeconds"@ != "frameHashMaxFrames"@,
        "minSpanSeconds"@ != "fingerprint_timeout_seconds"@,
        "minSpanSeconds"@ != "fingerprintTimeoutSeconds"@,
        "minSpanSeconds"@ != "frame_hash_timeout_seconds"@,
        "minSpanSeconds"@ != "frameHashTimeoutSeconds"@,
        "minSpanSeconds"@ != "min_span_seconds"@,
        "min_start_fraction"@ != "enabled"@,
        "min_start_fraction"@ != "label"@,
        "min_start_fraction"@ != "kind"@,
        "min_start_fraction"@ != "base_url"@,
        "min_start_fraction"@ != "baseUrl"@,
        "min_start_fraction"@ != "timeout_ms"@,
        "min_start_fraction"@ != "timeoutMs"@,
        "min_start_fraction"@ != "cache_ttl_seconds"@,
        "min_start_fraction"@ != "cacheTtlSeconds"@,
        "min_start_fraction"@ != "rate_limit_per_minute"@,
        "min_start_fraction"@ != "rateLimitPerMinute"@,
        "min_start_fraction"@ != "min_repeat_count"@,
        "min_start_fraction"@ != "minRepeatCount"@,
        "min_start_fraction"@ != "min_frame_count"@,
        "min_start_fraction"@ != "minFrameCount"@,
        "min_start_fraction"@ != "min_season_files"@,
        "min_start_fraction"@ != "minSeasonFiles"@,
        "min_start_fraction"@ != "post_credit_scene_min_frames"@,
        "min_start_fraction"@ != "postCreditSceneMinFrames"@,
        "min_start_fraction"@ != "frame_hash_max_frames"@,
        "min_start_fraction"@ != "frameHashMaxFrames"@,
        "min_start_fraction"@ != "fingerprint_timeout_seconds"@,
        "min_start_fraction"@ != "fingerprintTimeoutSeconds"@,
        "min_start_fraction"@ != "frame_hash_timeout_seconds"@,
        "min_start_fraction"@ != "frameHashTimeoutSeconds"@,
        "min_start_fraction"@ != "min_span_seconds"@,
        "min_start_fraction"@ != "minSpanSeconds"@,
        "minStartFraction"@ != "enabled"@,
        "minStartFraction"@ != "label"@,
        "minStartFraction"@ != "kind"@,
        "minStartFraction"@ != "base_url"@,
        "minStartFraction"@ != "baseUrl"@,
        "minStartFraction"@ != "timeout_ms"@,
        "minStartFraction"@ != "timeoutMs"@,
        "minStartFraction"@ != "cache_ttl_seconds"@,
        "minStartFraction"@ != "cacheTtlSeconds"@,
        "minStartFraction"@ != "rate_limit_per_minute"@,
        "minStartFraction"@ != "rateLimitPerMinute"@,
        "minStartFraction"@ != "min_repeat_count"@,
        "minStartFraction"@ != "minRepeatCount"@,
        "minStartFraction"@ != "min_frame_count"@,
        "minStartFraction"@ != "minFrameCount"@,
        "minStartFraction"@ != "min_season_files"@,
        "minStartFraction"@ != "minSeasonFiles"@,
        "minStartFraction"@ != "post_credit_scene_min_frames"@,
        "minStartFraction"@ != "postCreditSceneMinFrames"@,
        "minStartFraction"@ != "frame_hash_max_frames"@,
        "minStartFraction"@ != "frameHashMaxFrames"@,
        "minStartFraction"@ != "fingerprint_timeout_seconds"@,
        "minStartFraction"@ != "fingerprintTimeoutSeconds"@,
        "minStartFraction"@ != "frame_hash_timeout_seconds"@,
        "minStartFraction"@ != "frameHashTimeoutSeconds"@,
        "minStartFraction"@ != "min_span_seconds"@,
        "minStartFraction"@ != "minSpanSeconds"@,
        "minStartFraction"@ != "min_start_fraction"@,
        "max_frame_gap_seconds"@ != "enabled"@,
        "max_frame_gap_seconds"@ != "label"@,
        "max_frame_gap_seconds"@ != "kind"@,
        "max_frame_gap_seconds"@ != "base_url"@,
        "max_frame_gap_seconds"@ != "baseUrl"@,
        "max_frame_gap_seconds"@ != "timeout_ms"@,
        "max_frame_gap_seconds"@ != "timeoutMs"@,
        "max_frame_gap_seconds"@ != "cache_ttl_seconds"@,
        "max_frame_gap_seconds"@ != "cacheTtlSeconds"@,
        "max_frame_gap_seconds"@ != "rate_limit_per_minute"@,
        "max_frame_gap_seconds"@ != "rateLimitPerMinute"@,
        "max_frame_gap_seconds"@ != "min_repeat_count"@,
        "max_frame_gap_seconds"@ != "minRepeatCount"@,
        "max_frame_gap_seconds"@ != "min_frame_count"@,
        "max_frame_gap_seconds"@ != "minFrameCount"@,
        "max_frame_gap_seconds"@ != "min_season_files"@,
        "max_frame_gap_seconds"@ != "minSeasonFiles"@,
        "max_frame_gap_seconds"@ != "post_credit_scene_min_frames"@,
        "max_frame_gap_seconds"@ != "postCreditSceneMinFrames"@,
        "max_frame_gap_seconds"@ != "frame_hash_max_frames"@,
        "max_frame_gap_seconds"@ != "frameHashMaxFrames"@,
        "max_frame_gap_seconds"@ != "fingerprint_timeout_seconds"@,
        "max_frame_gap_seconds"@ != "fingerprintTimeoutSeconds"@,
        "max_frame_gap_seconds"@ != "frame_hash_timeout_seconds"@,
        "max_frame_gap_seconds"@ != "frameHashTimeoutSeconds"@,
        "max_frame_gap_seconds"@ != "min_span_seconds"@,
        "max_frame_gap_seconds"@ != "minSpanSeconds"@,
        "max_frame_gap_seconds"@ != "min_start_fraction"@,
        "max_frame_gap_seconds"@ != "minStartFraction"@,
        "maxFrameGapSeconds"@ != "enabled"@,
        "maxFrameGapSeconds"@ != "label"@,
        "maxFrameGapSeconds"@ != "kind"@,
        "maxFrameGapSeconds"@ != "base_url"@,
        "maxFrameGapSeconds"@ != "baseUrl"@,
        "maxFrameGapSeconds"@ != "timeout_ms"@,
        "maxFrameGapSeconds"@ != "timeoutMs"@,
        "maxFrameGapSeconds"@ != "cache_ttl_seconds"@,
        "maxFrameGapSeconds"@ != "cacheTtlSeconds"@,
        "maxFrameGapSeconds"@ != "rate_limit_per_minute"@,
        "maxFrameGapSeconds"@ != "rateLimitPerMinute"@,
        "maxFrameGapSeconds"@ != "min_repeat_count"@,
        "maxFrameGapSeconds"@ != "minRepeatCount"@,
        "maxFrameGapSeconds"@ != "min_frame_count"@,
        "maxFrameGapSeconds"@ != "minFrameCount"@,
        "maxFrameGapSeconds"@ != "min_season_files"@,
        "maxFrameGapSeconds"@ != "minSeasonFiles"@,
        "maxFrameGapSeconds"@ != "post_credit_scene_min_frames"@,
        "maxFrameGapSeconds"@ != "postCreditSceneMinFrames"@,
        "maxFrameGapSeconds"@ != "frame_hash_max_frames"@,
        "maxFrameGapSeconds"@ != "frameHashMaxFrames"@,
        "maxFrameGapSeconds"@ != "fingerprint_timeout_seconds"@,
        "maxFrameGapSeconds"@ != "fingerprintTimeoutSeconds"@,
        "maxFrameGapSeconds"@ != "frame_hash_timeout_seconds"@,
        "maxFrameGapSeconds"@ != "frameHashTimeoutSeconds"@,
        "maxFrameGapSeconds"@ != "min_span_seconds"@,
        "maxFrameGapSeconds"@ != "minSpanSeconds"@,
        "maxFrameGapSeconds"@ != "min_start_fraction"@,
        "maxFrameGapSeconds"@ != "minStartFraction"@,
        "maxFrameGapSeconds"@ != "max_frame_gap_seconds"@,
        "black_ratio_threshold"@ != "enabled"@,
        "black_ratio_threshold"@ != "label"@,
        "black_ratio_threshold"@ != "kind"@,
        "black_ratio_threshold"@ != "base_url"@,
        "black_ratio_threshold"@ != "baseUrl"@,
        "black_ratio_threshold"@ != "timeout_ms"@,
        "black_ratio_threshold"@ != "timeoutMs"@,
        "black_ratio_threshold"@ != "cache_ttl_seconds"@,
        "black_ratio_threshold"@ != "cacheTtlSeconds"@,
        "black_ratio_threshold"@ != "rate_limit_per_minute"@,
        "black_ratio_threshold"@ != "rateLimitPerMinute"@,
        "black_ratio_threshold"@ != "min_repeat_count"@,
        "black_ratio_threshold"@ != "minRepeatCount"@,
        "black_ratio_threshold"@ != "min_frame_count"@,
        "black_ratio_threshold"@ != "minFrameCount"@,
        "black_ratio_threshold"@ != "min_season_files"@,
        "black_ratio_threshold"@ != "minSeasonFiles"@,
        "black_ratio_threshold"@ != "post_credit_scene_min_frames"@,
        "black_ratio_threshold"@ != "postCreditSceneMinFrames"@,
        "black_ratio_threshold"@ != "frame_hash_max_frames"@,
        "black_ratio_threshold"@ != "frameHashMaxFrames"@,
        "black_ratio_threshold"@ != "fingerprint_timeout_seconds"@,
        "black_ratio_threshold"@ != "fingerprintTimeoutSeconds"@,
        "black_ratio_threshold"@ != "frame_hash_timeout_seconds"@,
        "black_ratio_threshold"@ != "frameHashTimeoutSeconds"@,
        "black_ratio_threshold"@ != "min_span_seconds"@,
        "black_ratio_threshold"@ != "minSpanSeconds"@,
        "black_ratio_threshold"@ != "min_start_fraction"@,
        "black_ratio_threshold"@ != "minStartFraction"@,
        "black_ratio_threshold"@ != "max_frame_gap_seconds"@,
        "black_ratio_threshold"@ != "maxFrameGapSeconds"@,
        "blackRatioThreshold"@ != "enabled"@,
        "blackRatioThreshold"@ != "label"@,
        "blackRatioThreshold"@ != "kind"@,
        "blackRatioThreshold"@ != "base_url"@,
        "blackRatioThreshold"@ != "baseUrl"@,
        "blackRatioThreshold"@ != "timeout_ms"@,
        "blackRatioThreshold"@ != "timeoutMs"@,
        "blackRatioThreshold"@ != "cache_ttl_seconds"@,
        "blackRatioThreshold"@ != "cacheTtlSeconds"@,
        "blackRatioThreshold"@ != "rate_limit_per_minute"@,
        "blackRatioThreshold"@ != "rateLimitPerMinute"@,
        "blackRatioThreshold"@ != "min_repeat_count"@,
        "blackRatioThreshold"@ != "minRepeatCount"@,
        "blackRatioThreshold"@ != "min_frame_count"@,
        "blackRatioThreshold"@ != "minFrameCount"@,
        "blackRatioThreshold"@ != "min_season_files"@,
        "blackRatioThreshold"@ != "minSeasonFiles"@,
        "blackRatioThreshold"@ != "post_credit_scene_min_frames"@,
        "blackRatioThreshold"@ != "postCreditSceneMinFrames"@,
        "blackRatioThreshold"@ != "frame_hash_max_frames"@,
        "blackRatioThreshold"@ != "frameHashMaxFrames"@,
        "blackRatioThreshold"@ != "fingerprint_timeout_seconds"@,
        "blackRatioThreshold"@ != "fingerprintTimeoutSeconds"@,
        "blackRatioThreshold"@ != "frame_hash_timeout_seconds"@,
        "blackRatioThreshold"@ != "frameHashTimeoutSeconds"@,
        "blackRatioThreshold"@ != "min_span_seconds"@,
        "blackRatioThreshold"@ != "minSpanSeconds"@,
        "blackRatioThreshold"@ != "min_start_fraction"@,
        "blackRatioThreshold"@ != "minStartFraction"@,
        "blackRatioThreshold"@ != "max_frame_gap_seconds"@,
        "blackRatioThreshold"@ != "maxFrameGapSeconds"@,
        "blackRatioThreshold"@ != "black_ratio_threshold"@,
{
    reveal_strlit("enabled");
    reveal_strlit("label");
    reveal_strlit("kind");
    reveal_strlit("base_url");
    reveal_strlit("baseUrl");
    reveal_strlit("timeout_ms");
    reveal_strlit("timeoutMs");
    reveal_strlit("cache_ttl_seconds");
    reveal_strlit("cacheTtlSeconds");
    reveal_strlit("rate_limit_per_minute");
    reveal_strlit("rateLimitPerMinute");
    reveal_strlit("min_repeat_count");
    reveal_strlit("minRepeatCount");
    reveal_strlit("min_frame_count");
    reveal_strlit("minFrameCount");
    reveal_strlit("min_season_files");
    reveal_strlit("minSeasonFiles");
    reveal_strlit("post_credit_scene_min_frames");
    reveal_strlit("postCreditSceneMinFrames");
    reveal_strlit("frame_hash_max_frames");
    reveal_strlit("frameHashMaxFrames");
    reveal_strlit("fingerprint_timeout_seconds");
    reveal_strlit("fingerprintTimeoutSeconds");
    reveal_strlit("frame_hash_timeout_seconds");
    reveal_strlit("frameHashTimeoutSeconds");
    reveal_strlit("min_span_seconds");
    reveal_strlit("minSpanSeconds");
    reveal_strlit("min_start_fraction");
    reveal_strlit("minStartFraction");
    reveal_strlit("max_frame_gap_seconds");
    reveal_strlit("maxFrameGapSeconds");
    reveal_strlit("black_ratio_threshold");
    reveal_strlit("blackRatioThreshold");
    assert("enabled"@.len() == 7);
    assert("label"@.len() == 5);
    assert("kind"@.len() == 4);
    assert("base_url"@.len() == 8);
    assert("baseUrl"@.len() == 7);
    assert("timeout_ms"@.len() == 10);
    assert("timeoutMs"@.len() == 9);
    assert("cache_ttl_seconds"@.len() == 17);
    assert("cacheTtlSeconds"@.len() == 15);
    assert("rate_limit_per_minute"@.len() == 21);
    assert("rateLimitPerMinute"@.len() == 18);
    assert("min_repeat_count"@.len() == 16);
    assert("minRepeatCount"@.len() == 14);
    assert("min_frame_count"@.len() == 15);
    assert("minFrameCount"@.len() == 13);
    assert("min_season_files"@.len() == 16);
    assert("minSeasonFiles"@.len() == 14);
    assert("post_credit_scene_min_frames"@.len() == 28);
    assert("postCreditSceneMinFrames"@.len() == 24);
    assert("frame_hash_max_frames"@.len() == 21);
    assert("frameHashMaxFrames"@.len() == 18);
    assert("fingerprint_timeout_seconds"@.len() == 27);
    assert("fingerprintTimeoutSeconds"@.len() == 25);
    assert("frame_hash_timeout_seconds"@.len() == 26);
    assert("frameHashTimeoutSeconds"@.len() == 23);
    assert("min_span_seconds"@.len() == 16);
    assert("minSpanSeconds"@.len() == 14);
    assert("min_start_fraction"@.len() == 18);
    assert("minStartFraction"@.len() == 16);
    assert("max_frame_gap_seconds"@.len() == 21);
    assert("maxFrameGapSeconds"@.len() == 18);
    assert("black_ratio_threshold"@.len() == 21);
    assert("blackRatioThreshold"@.len() == 19);
    assert("min_span_seconds"@[4] == 's');
    assert("min_repeat_count"@[4] == 'r');
    assert("min_span_seconds"@[5] == 'p');
    assert("min_season_files"@[5] == 'e');
    assert("minSpanSeconds"@[3] == 'S');
    assert("minRepeatCount"@[3] == 'R');
    assert("minSpanSeconds"@[4] == 'p');
    assert("minSeasonFiles"@[4] == 'e');
    assert("min_start_fraction"@[0] == 'm');
    assert("rateLimitPerMinute"@[0] == 'r');
    assert("frameHashMaxFrames"@[0] == 'f');
    assert("minStartFraction"@[3] == 'S');
    assert("min_repeat_count"@[3] == '_');
    assert("min_season_files"@[3] == '_');
    assert("min_span_seconds"@[3] == '_');
    assert("max_frame_gap_seconds"@[0] == 'm');
    assert("rate_limit_per_minute"@[0] == 'r');
    assert("frame_hash_max_frames"@[0] == 'f');
    assert("maxFrameGapSeconds"@[0] == 'm');
    assert("maxFrameGapSeconds"@[1] == 'a');
    assert("min_start_fraction"@[1] == 'i');
    assert("black_ratio_threshold"@[0] == 'b');
}

/// What a patch sets of the shape of a run of credits is admitted just within its
/// range, and then kept under its one name.
#[verifier::spinoff_prover]
pub proof fn ratios_are_admitted_in_their_range(members: Seq<(Seq<char>, Json)>, key: Seq<char>, n: i64)
    ensures
        key == "min_span_seconds"@ || key == "minSpanSeconds"@ ==> {
            let r = patched(members, key, Json::Number(JsonNumber::Fraction(n)));
            &&& r is Ok <==> 10_000_000 <= n <= 600_000_000
            &&& r is Ok ==> json::lookup(r->Ok_0, "min_span_seconds"@) == Some(Json::Number(JsonNumber::Fraction(n)))
        },
        key == "min_start_fraction"@ || key == "minStartFraction"@ ==> {
            let r = patched(members, key, Json::Number(JsonNumber::Fraction(n)));
            &&& r is Ok <==> 500_000 <= n <= 950_000
            &&& r is Ok ==> json::lookup(r->Ok_0, "min_start_fraction"@) == Some(Json::Number(JsonNumber::Fraction(n)))
        },
        key == "max_frame_gap_seconds"@ || key == "maxFrameGapSeconds"@ ==> {
            let r = patched(members, key, Json::Number(JsonNumber::Fraction(n)));
            &&& r is Ok <==> 5_000_000 <= n <= 300_000_000
            &&& r is Ok ==> json::lookup(r->Ok_0, "max_frame_gap_seconds"@) == Some(Json::Number(JsonNumber::Fraction(n)))
        },
        key == "black_ratio_threshold"@ || key == "blackRatioThreshold"@ ==> {
            let r = patched(members, key, Json::Number(JsonNumber::Fraction(n)));
            &&& r is Ok <==> 100_000 <= n <= 1_000_000
            &&& r is Ok ==> json::lookup(r->Ok_0, "black_ratio_threshold"@) == Some(Json::Number(JsonNumber::Fraction(n)))
        },
{
    lemma_names_of_ratios();
    json::lemma_lookup_with_member(members, "min_span_seconds"@, Json::Number(JsonNumber::Fraction(n)), "min_span_seconds"@);
    json::lemma_lookup_with_member(members, "min_start_fraction"@, Json::Number(JsonNumber::Fraction(n)), "min_start_fraction"@);
    json::lemma_lookup_with_member(members, "max_frame_gap_seconds"@, Json::Number(JsonNumber::Fraction(n)), "max_frame_gap_seconds"@);
    json::lemma_lookup_with_member(members, "black_ratio_threshold"@, Json::Number(JsonNumber::Fraction(n)), "black_ratio_threshold"@);
}

proof fn lemma_names_of_spans()
    ensures
        "text_ratio_threshold"@ != "enabled"@,
        "text_ratio_threshold"@ != "label"@,
        "text_ratio_threshold"@ != "kind"@,
        "text_ratio_threshold"@ != "base_url"@,
        "text_ratio_threshold"@ != "baseUrl"@,
        "text_ratio_threshold"@ != "timeout_ms"@,
        "text_ratio_threshold"@ != "timeoutMs"@,
        "text_ratio_threshold"@ != "cache_ttl_seconds"@,
        "text_ratio_threshold"@ != "cacheTtlSeconds"@,
        "text_ratio_threshold"@ != "rate_limit_per_minute"@,
        "text_ratio_threshold"@ != "rateLimitPerMinute"@,
        "text_ratio_threshold"@ != "min_repeat_count"@,
        "text_ratio_threshold"@ != "minRepeatCount"@,
        "text_ratio_threshold"@ != "min_frame_count"@,
        "text_ratio_threshold"@ != "minFrameCount"@,
        "text_ratio_threshold"@ != "min_season_files"@,
        "text_ratio_threshold"@ != "minSeasonFiles"@,
        "text_ratio_threshold"@ != "post_credit_scene_min_frames"@,
        "text_ratio_threshold"@ != "postCreditSceneMinFrames"@,
        "text_ratio_threshold"@ != "frame_hash_max_frames"@,
        "text_ratio_threshold"@ != "frameHashMaxFrames"@,
        "text_ratio_threshold"@ != "fingerprint_timeout_seconds"@,
        "text_ratio_threshold"@ != "fingerprintTimeoutSeconds"@,
        "text_ratio_threshold"@ != "frame_hash_timeout_seconds"@,
        "text_ratio_threshold"@ != "frameHashTimeoutSeconds"@,
        "text_ratio_threshold"@ != "min_span_seconds"@,
        "text_ratio_threshold"@ != "minSpanSeconds"@,
        "text_ratio_threshold"@ != "min_start_fraction"@,
        "text_ratio_threshold"@ != "minStartFraction"@,
        "text_ratio_threshold"@ != "max_frame_gap_seconds"@,
        "text_ratio_threshold"@ != "maxFrameGapSeconds"@,
        "text_ratio_threshold"@ != "black_ratio_threshold"@,
        "text_ratio_threshold"@ != "blackRatioThreshold"@,
        "textRatioThreshold"@ != "enabled"@,
        "textRatioThreshold"@ != "label"@,
        "textRatioThreshold"@ != "kind"@,
        "textRatioThreshold"@ != "base_url"@,
        "textRatioThreshold"@ != "baseUrl"@,
        "textRatioThreshold"@ != "timeout_ms"@,
        "textRatioThreshold"@ != "timeoutMs"@,
        "textRatioThreshold"@ != "cache_ttl_seconds"@,
        "textRatioThreshold"@ != "cacheTtlSeconds"@,
        "textRatioThreshold"@ != "rate_limit_per_minute"@,
        "textRatioThreshold"@ != "rateLimitPerMinute"@,
        "textRatioThreshold"@ != "min_repeat_count"@,
        "textRatioThreshold"@ != "minRepeatCount"@,
        "textRatioThreshold"@ != "min_frame_count"@,
        "textRatioThreshold"@ != "minFrameCount"@,
        "textRatioThreshold"@ != "min_season_files"@,
        "textRatioThreshold"@ != "minSeasonFiles"@,
        "textRatioThreshold"@ != "post_credit_scene_min_frames"@,
        "textRatioThreshold"@ != "postCreditSceneMinFrames"@,
        "textRatioThreshold"@ != "frame_hash_max_frames"@,
        "textRatioThreshold"@ != "frameHashMaxFrames"@,
        "textRatioThreshold"@ != "fingerprint_timeout_seconds"@,
        "textRatioThreshold"@ != "fingerprintTimeoutSeconds"@,
        "textRatioThreshold"@ != "frame_hash_timeout_seconds"@,
        "textRatioThreshold"@ != "frameHashTimeoutSeconds"@,
        "textRatioThreshold"@ != "min_span_seconds"@,
        "textRatioThreshold"@ != "minSpanSeconds"@,
        "textRatioThreshold"@ != "min_start_fraction"@,
        "textRatioThreshold"@ != "minStartFraction"@,
        "textRatioThreshold"@ != "max_frame_gap_seconds"@,
        "textRatioThreshold"@ != "maxFrameGapSeconds"@,
        "textRatioThreshold"@ != "black_ratio_threshold"@,
        "textRatioThreshold"@ != "blackRatioThreshold"@,
        "textRatioThreshold"@ != "text_ratio_threshold"@,
        "post_credit_scene_min_span_seconds"@ != "enabled"@,
        "post_credit_scene_min_span_seconds"@ != "label"@,
        "post_credit_scene_min_span_seconds"@ != "kind"@,
        "post_credit_scene_min_span_seconds"@ != "base_url"@,
        "post_credit_scene_min_span_seconds"@ != "baseUrl"@,
        "post_credit_scene_min_span_seconds"@ != "timeout_ms"@,
        "post_credit_scene_min_span_seconds"@ != "timeoutMs"@,
        "post_credit_scene_min_span_seconds"@ != "cache_ttl_seconds"@,
        "post_credit_scene_min_span_seconds"@ != "cacheTtlSeconds"@,
        "post_credit_scene_min_span_seconds"@ != "rate_limit_per_minute"@,
        "post_credit_scene_min_span_seconds"@ != "rateLimitPerMinute"@,
        "post_credit_scene_min_span_seconds"@ != "min_repeat_count"@,
        "post_credit_scene_min_span_seconds"@ != "minRepeatCount"@,
        "post_credit_scene_min_span_seconds"@ != "min_frame_count"@,
        "post_credit_scene_min_span_seconds"@ != "minFrameCount"@,
        "post_credit_scene_min_span_seconds"@ != "min_season_files"@,
        "post_credit_scene_min_span_seconds"@ != "minSeasonFiles"@,
        "post_credit_scene_min_span_seconds"@ != "post_credit_scene_min_frames"@,
        "post_credit_scene_min_span_seconds"@ != "postCreditSceneMinFrames"@,
        "post_credit_scene_min_span_seconds"@ != "frame_hash_max_frames"@,
        "post_credit_scene_min_span_seconds"@ != "frameHashMaxFrames"@,
        "post_credit_scene_min_span_seconds"@ != "fingerprint_timeout_seconds"@,
        "post_credit_scene_min_span_seconds"@ != "fingerprintTimeoutSeconds"@,
        "post_credit_scene_min_span_seconds"@ != "frame_hash_timeout_seconds"@,
        "post_credit_scene_min_span_seconds"@ != "frameHashTimeoutSeconds"@,
        "post_credit_scene_min_span_seconds"@ != "min_span_seconds"@,
        "post_credit_scene_min_span_seconds"@ != "minSpanSeconds"@,
        "post_credit_scene_min_span_seconds"@ != "min_start_fraction"@,
        "post_credit_scene_min_span_seconds"@ != "minStartFraction"@,
        "post_credit_scene_min_span_seconds"@ != "max_frame_gap_seconds"@,
        "post_credit_scene_min_span_seconds"@ != "maxFrameGapSeconds"@,
        "post_credit_scene_min_span_seconds"@ != "black_ratio_threshold"@,
        "post_credit_scene_min_span_seconds"@ != "blackRatioThreshold"@,
        "post_credit_scene_min_span_seconds"@ != "text_ratio_threshold"@,
        "post_credit_scene_min_span_seconds"@ != "textRatioThreshold"@,
        "postCreditSceneMinSpanSeconds"@ != "enabled"@,
        "postCreditSceneMinSpanSeconds"@ != "label"@,
        "postCreditSceneMinSpanSeconds"@ != "kind"@,
        "postCreditSceneMinSpanSeconds"@ != "base_url"@,
        "postCreditSceneMinSpanSeconds"@ != "baseUrl"@,
        "postCreditSceneMinSpanSeconds"@ != "timeout_ms"@,
        "postCreditSceneMinSpanSeconds"@ != "timeoutMs"@,
        "postCreditSceneMinSpanSeconds"@ != "cache_ttl_seconds"@,
        "postCreditSceneMinSpanSeconds"@ != "cacheTtlSeconds"@,
        "postCreditSceneMinSpanSeconds"@ != "rate_limit_per_minute"@,
        "postCreditSceneMinSpanSeconds"@ != "rateLimitPerMinute"@,
        "postCreditSceneMinSpanSeconds"@ != "min_repeat_count"@,
        "postCreditSceneMinSpanSeconds"@ != "minRepeatCount"@,
        "postCreditSceneMinSpanSeconds"@ != "min_frame_count"@,
        "postCreditSceneMinSpanSeconds"@ != "minFrameCount"@,
        "postCreditSceneMinSpanSeconds"@ != "min_season_files"@,
        "postCreditSceneMinSpanSeconds"@ != "minSeasonFiles"@,
        "postCreditSceneMinSpanSeconds"@ != "post_credit_scene_min_frames"@,
        "postCreditSceneMinSpanSeconds"@ != "postCreditSceneMinFrames"@,
        "postCreditSceneMinSpanSeconds"@ != "frame_hash_max_frames"@,
        "postCreditSceneMinSpanSeconds"@ != "frameHashMaxFrames"@,
        "postCreditSceneMinSpanSeconds"@ != "fingerprint_timeout_seconds"@,
        "postCreditSceneMinSpanSeconds"@ != "fingerprintTimeoutSeconds"@,
        "postCreditSceneMinSpanSeconds"@ != "frame_hash_timeout_seconds"@,
        "postCreditSceneMinSpanSeconds"@ != "frameHashTimeoutSeconds"@,
        "postCreditSceneMinSpanSeconds"@ != "min_span_seconds"@,
        "postCreditSceneMinSpanSeconds"@ != "minSpanSeconds"@,
        "postCreditSceneMinSpanSeconds"@ != "min_start_fraction"@,
        "postCreditSceneMinSpanSeconds"@ != "minStartFraction"@,
        "postCreditSceneMinSpanSeconds"@ != "max_frame_gap_seconds"@,
        "postCreditSceneMinSpanSeconds"@ != "maxFrameGapSeconds"@,
        "postCreditSceneMinSpanSeconds"@ != "black_ratio_threshold"@,
        "postCreditSceneMinSpanSeconds"@ != "blackRatioThreshold"@,
        "postCreditSceneMinSpanSeconds"@ != "text_ratio_threshold"@,
        "postCreditSceneMinSpanSeconds"@ != "textRatioThreshold"@,
        "postCreditSceneMinSpanSeconds"@ != "post_credit_scene_min_span_seconds"@,
        "frame_hash_step_seconds"@ != "enabled"@,
        "frame_hash_step_seconds"@ != "label"@,
        "frame_hash_step_seconds"@ != "kind"@,
        "frame_hash_step_seconds"@ != "base_url"@,
        "frame_hash_step_seconds"@ != "baseUrl"@,
        "frame_hash_step_seconds"@ != "timeout_ms"@,
        "frame_hash_step_seconds"@ != "timeoutMs"@,
        "frame_hash_step_seconds"@ != "cache_ttl_seconds"@,
        "frame_hash_step_seconds"@ != "cacheTtlSeconds"@,
        "frame_hash_step_seconds"@ != "rate_limit_per_minute"@,
        "frame_hash_step_seconds"@ != "rateLimitPerMinute"@,
        "frame_hash_step_seconds"@ != "min_repeat_count"@,
        "frame_hash_step_seconds"@ != "minRepeatCount"@,
        "frame_hash_step_seconds"@ != "min_frame_count"@,
        "frame_hash_step_seconds"@ != "minFrameCount"@,
        "frame_hash_step_seconds"@ != "min_season_files"@,
        "frame_hash_step_seconds"@ != "minSeasonFiles"@,
        "frame_hash_step_seconds"@ != "post_credit_scene_min_frames"@,
        "frame_hash_step_seconds"@ != "postCreditSceneMinFrames"@,
        "frame_hash_step_seconds"@ != "frame_hash_max_frames"@,
        "frame_hash_step_seconds"@ != "frameHashMaxFrames"@,
        "frame_hash_step_seconds"@ != "fingerprint_timeout_seconds"@,
        "frame_hash_step_seconds"@ != "fingerprintTimeoutSeconds"@,
        "frame_hash_step_seconds"@ != "frame_hash_timeout_seconds"@,
        "frame_hash_step_seconds"@ != "frameHashTimeoutSeconds"@,
        "frame_hash_step_seconds"@ != "min_span_seconds"@,
        "frame_hash_step_seconds"@ != "minSpanSeconds"@,
        "frame_hash_step_seconds"@ != "min_start_fraction"@,
        "frame_hash_step_seconds"@ != "minStartFraction"@,
        "frame_hash_step_seconds"@ != "max_frame_gap_seconds"@,
        "frame_hash_step_seconds"@ != "maxFrameGapSeconds"@,
        "frame_hash_step_seconds"@ != "black_ratio_threshold"@,
        "frame_hash_step_seconds"@ != "blackRatioThreshold"@,
        "frame_hash_step_seconds"@ != "text_ratio_threshold"@,
        "frame_hash_step_seconds"@ != "textRatioThreshold"@,
        "frame_hash_step_seconds"@ != "post_credit_scene_min_span_seconds"@,
        "frame_hash_step_seconds"@ != "postCreditSceneMinSpanSeconds"@,
        "frameHashStepSeconds"@ != "enabled"@,
        "frameHashStepSeconds"@ != "label"@,
        "frameHashStepSeconds"@ != "kind"@,
        "frameHashStepSeconds"@ != "base_url"@,
        "frameHashStepSeconds"@ != "baseUrl"@,
        "frameHashStepSeconds"@ != "timeout_ms"@,
        "frameHashStepSeconds"@ != "timeoutMs"@,
        "frameHashStepSeconds"@ != "cache_ttl_seconds"@,
        "frameHashStepSeconds"@ != "cacheTtlSeconds"@,
        "frameHashStepSeconds"@ != "rate_limit_per_minute"@,
        "frameHashStepSeconds"@ != "rateLimitPerMinute"@,
        "frameHashStepSeconds"@ != "min_repeat_count"@,
        "frameHashStepSeconds"@ != "minRepeatCount"@,
        "frameHashStepSeconds"@ != "min_frame_count"@,
        "frameHashStepSeconds"@ != "minFrameCount"@,
        "frameHashStepSeconds"@ != "min_season_files"@,
        "frameHashStepSeconds"@ != "minSeasonFiles"@,
        "frameHashStepSeconds"@ != "post_credit_scene_min_frames"@,
        "frameHashStepSeconds"@ != "postCreditSceneMinFrames"@,
        "frameHashStepSeconds"@ != "frame_hash_max_frames"@,
        "frameHashStepSeconds"@ != "frameHashMaxFrames"@,
        "frameHashStepSeconds"@ != "fingerprint_timeout_seconds"@,
        "frameHashStepSeconds"@ != "fingerprintTimeoutSeconds"@,
        "frameHashStepSeconds"@ != "frame_hash_timeout_seconds"@,
        "frameHashStepSeconds"@ != "frameHashTimeoutSeconds"@,
        "frameHashStepSeconds"@ != "min_span_seconds"@,
        "frameHashStepSeconds"@ != "minSpanSeconds"@,
        "frameHashStepSeconds"@ != "min_start_fraction"@,
        "frameHashStepSeconds"@ != "minStartFraction"@,
        "frameHashStepSeconds"@ != "max_frame_gap_seconds"@,
        "frameHashStepSeconds"@ != "maxFrameGapSeconds"@,
        "frameHashStepSeconds"@ != "black_ratio_threshold"@,
        "frameHashStepSeconds"@ != "blackRatioThreshold"@,
        "frameHashStepSeconds"@ != "text_ratio_threshold"@,
        "frameHashStepSeconds"@ != "textRatioThreshold"@,
        "frameHashStepSeconds"@ != "post_credit_scene_min_span_seconds"@,
        "frameHashStepSeconds"@ != "postCreditSceneMinSpanSeconds"@,
        "frameHashStepSeconds"@ != "frame_hash_step_seconds"@,
{
    reveal_strlit("enabled");
    reveal_strlit("label");
    reveal_strlit("kind");
    reveal_strlit("base_url");
    reveal_strlit("baseUrl");
    reveal_strlit("timeout_ms");
    reveal_strlit("timeoutMs");
    reveal_strlit("cache_ttl_seconds");
    reveal_strlit("cacheTtlSeconds");
    reveal_strlit("rate_limit_per_minute");
    reveal_strlit("rateLimitPerMinute");
    reveal_strlit("min_repeat_count");
    reveal_strlit("minRepeatCount");
    reveal_strlit("min_frame_count");
    reveal_strlit("minFrameCount");
    reveal_strlit("min_season_files");
    reveal_strlit("minSeasonFiles");
    reveal_strlit("post_credit_scene_min_frames");
    reveal_strlit("postCreditSceneMinFrames");
    reveal_strlit("frame_hash_max_frames");
    reveal_strlit("frameHashMaxFrames");
    reveal_strlit("fingerprint_timeout_seconds");
    reveal_strlit("fingerprintTimeoutSeconds");
    reveal_strlit("frame_hash_timeout_seconds");
    reveal_strlit("frameHashTimeoutSeconds");
    reveal_strlit("min_span_seconds");
    reveal_strlit("minSpanSeconds");
    reveal_strlit("min_start_fraction");
    reveal_strlit("minStartFraction");
    reveal_strlit("max_frame_gap_seconds");
    reveal_strlit("maxFrameGapSeconds");
    reveal_strlit("black_ratio_threshold");
    reveal_strlit("blackRatioThreshold");
    reveal_strlit("text_ratio_threshold");
    reveal_strlit("textRatioThreshold");
    reveal_strlit("post_credit_scene_min_span_seconds");
    reveal_strlit("postCreditSceneMinSpanSeconds");
    reveal_strlit("frame_hash_step_seconds");
    reveal_strlit("frameHashStepSeconds");
    assert("enabled"@.len() == 7);
    assert("label"@.len() == 5);
    assert("kind"@.len() == 4);
    assert("base_url"@.len() == 8);
    assert("baseUrl"@.len() == 7);
    assert("timeout_ms"@.len() == 10);
    assert("timeoutMs"@.len() == 9);
    assert("cache_ttl_seconds"@.len() == 17);
    assert("cacheTtlSeconds"@.len() == 15);
    assert("rate_limit_per_minute"@.len() == 21);
    assert("rateLimitPerMinute"@.len() == 18);
    assert("min_repeat_count"@.len() == 16);
    assert("minRepeatCount"@.len() == 14);
    assert("min_frame_count"@.len() == 15);
    assert("minFrameCount"@.len() == 13);
    assert("min_season_files"@.len() == 16);
    assert("minSeasonFiles"@.len() == 14);
    assert("post_credit_scene_min_frames"@.len() == 28);
    assert("postCreditSceneMinFrames"@.len() == 24);
    assert("frame_hash_max_frames"@.len() == 21);
    assert("frameHashMaxFrames"@.len() == 18);
    assert("fingerprint_timeout_seconds"@.len() == 27);
    assert("fingerprintTimeoutSeconds"@.len() == 25);
    assert("frame_hash_timeout_seconds"@.len() == 26);
    assert("frameHashTimeoutSeconds"@.len() == 23);
    assert("min_span_seconds"@.len() == 16);
    assert("minSpanSeconds"@.len() == 14);
    assert("min_start_fraction"@.len() == 18);
    assert("minStartFraction"@.len() == 16);
    assert("max_frame_gap_seconds"@.len() == 21);
    assert("maxFrameGapSeconds"@.len() == 18);
    assert("black_ratio_threshold"@.len() == 21);
    assert("blackRatioThreshold"@.len() == 19);
    assert("text_ratio_threshold"@.len() == 20);
    assert("textRatioThreshold"@.len() == 18);
    assert("post_credit_scene_min_span_seconds"@.len() == 34);
    assert("postCreditSceneMinSpanSeconds"@.len() == 29);
    assert("frame_hash_step_seconds"@.len() == 23);
    assert("frameHashStepSeconds"@.len() == 20);
    assert("textRatioThreshold"@[0] == 't');
    assert("rateLimitPerMinute"@[0] == 'r');
    assert("frameHashMaxFrames"@[0] == 'f');
    assert("min_start_fraction"@[0] == 'm');
    assert("maxFrameGapSeconds"@[0] == 'm');
    assert("frame_hash_step_seconds"@[5] == '_');
    assert("frameHashTimeoutSeconds"@[5] == 'H');
    assert("frameHashStepSeconds"@[0] == 'f');
    assert("text_ratio_threshold"@[0] == 't');
}

/// What a patch sets of text, of scenes after the credits and of the steps between
/// frames is admitted just within its range, and then kept under its one name.
#[verifier::spinoff_prover]
pub proof fn spans_are_admitted_in_their_range(members: Seq<(Seq<char>, Json)>, key: Seq<char>, n: i64)
    ensures
        key == "text_ratio_threshold"@ || key == "textRatioThreshold"@ ==> {
            let r = patched(members, key, Json::Number(JsonNumber::Fraction(n)));
            &&& r is Ok <==> 10_000 <= n <= 1_000_000
            &&& r is Ok ==> json::lookup(r->Ok_0, "text_ratio_threshold"@) == Some(Json::Number(JsonNumber::Fraction(n)))
        },
        key == "post_credit_scene_min_span_seconds"@ || key == "postCreditSceneMinSpanSeconds"@ ==> {
            let r = patched(members, key, Json::Number(JsonNumber::Fraction(n)));
            &&& r is Ok <==> 5_000_000 <= n <= 300_000_000
            &&& r is Ok ==> json::lookup(r->Ok_0, "post_credit_scene_min_span_seconds"@) == Some(Json::Number(JsonNumber::Fraction(n)))
        },
        key == "frame_hash_step_seconds"@ || key == "frameHashStepSeconds"@ ==> {
            let r = patched(members, key, Json::Number(JsonNumber::Fraction(n)));
            &&& r is Ok <==> 5_000_000 <= n <= 120_000_000
            &&& r is Ok ==> json::lookup(r->Ok_0, "frame_hash_step_seconds"@) == Some(Json::Number(JsonNumber::Fraction(n)))
        },
{
    lemma_names_of_spans();
    json::lemma_lookup_with_member(members, "text_ratio_threshold"@, Json::Number(JsonNumber::Fraction(n)), "text_ratio_threshold"@);
    json::lemma_lookup_with_member(members, "post_credit_scene_min_span_seconds"@, Json::Number(JsonNumber::Fraction(n)), "post_credit_scene_min_span_seconds"@);
    json::lemma_lookup_with_member(members, "frame_hash_step_seconds"@, Json::Number(JsonNumber::Fraction(n)), "frame_hash_step_seconds"@);
}


/// A number that the settings hold within its range is read as it is; one outside
/// of it, one that is no number and one that is not there are read as the default.
pub proof fn numbers_in_range_are_read(
    settings: Json,
    a: Seq<char>,
    b: Seq<char>,
    lo: int,
    hi: int,
    default: int,
    n: i64,
)
    ensures
        whole_setting(None, a, b, lo, hi, default) == default,
        fraction_setting(None, a, b, lo, hi, default) == default,
        json::json_get(settings, a) is None && json::json_get(settings, b) is None
            ==> whole_setting(Some(settings), a, b, lo, hi, default) == default && fraction_setting(
            Some(settings),
            a,
            b,
            lo,
            hi,
            default,
        ) == default,
        json::json_get(settings, a) == Some(whole_json(n)) ==> whole_setting(
            Some(settings),
            a,
            b,
            lo,
            hi,
            default,
        ) == if lo <= n <= hi {
            n as int
        } else {
            default
        },
        json::json_get(settings, a) is None && json::json_get(settings, b) == Some(whole_json(n))
            ==> whole_setting(Some(settings), a, b, lo, hi, default) == if lo <= n <= hi {
            n as int
        } else {
            default
        },
        json::json_get(settings, a) == Some(Json::Number(JsonNumber::Fraction(n)))
            ==> fraction_setting(Some(settings), a, b, lo, hi, default) == if lo <= n <= hi {
            n as int
        } else {
            default
        },
        json::json_get(settings, a) is None && json::json_get(settings, b) == Some(
            Json::Number(JsonNumber::Fraction(n)),
        ) ==> fraction_setting(Some(settings), a, b, lo, hi, default) == if lo <= n <= hi {
            n as int
        } else {
            default
        },
{
}

/// A provider is on or off as its settings say; where they say nothing, a built-in
/// one is off and an installed one is on.
pub proof fn switches_are_read(settings: Option<Json>, default: bool)
    ensures
        settings is None ==> enabled_setting(settings, default) == default,
        settings is Some ==> match json::json_get(settings->0, "enabled"@) {
            Some(Json::Bool(b)) => enabled_setting(settings, default) == b,
            _ => enabled_setting(settings, default) == default,
        },
{
}

/// A patch that is a truth value switches a provider and changes nothing else.
pub proof fn truth_values_switch_providers(current: Json, b: bool, other: Seq<char>)
    ensures
        merged_entry(current, Json::Bool(b)) is Ok,
        json::json_get(merged_entry(current, Json::Bool(b))->Ok_0, "enabled"@) == Some(
            Json::Bool(b),
        ),
        current is Object && other != "enabled"@ ==> json::json_get(
            merged_entry(current, Json::Bool(b))->Ok_0,
            other,
        ) == json::json_get(current, other),
{
    json::lemma_lookup_with_member(
        json::json_members(current),
        "enabled"@,
        Json::Bool(b),
        "enabled"@,
    );
    json::lemma_lookup_with_member(json::json_members(current), "enabled"@, Json::Bool(b), other);
}

/// A patch of a provider changes the member that it names, and no other; a switch
/// must be a truth value and an address one of the web.
pub proof fn patches_change_what_they_name(
    members: Seq<(Seq<char>, Json)>,
    value: Json,
    other: Seq<char>,
)
    ensures
        ({
            let r = patched(members, "enabled"@, value);
            &&& r is Ok <==> value is Bool
            &&& r is Ok ==> json::lookup(r->Ok_0, "enabled"@) == Some(value) && (other
                != "enabled"@ ==> json::lookup(r->Ok_0, other) == json::lookup(members, other))
        }),
        ({
            let r = patched(members, "base_url"@, value);
            let trimmed = text::trim_seq(value->Text_0);
            &&& r is Ok <==> value is Text && (text::has_prefix_seq(trimmed, "http://"@)
                || text::has_prefix_seq(trimmed, "https://"@))
            &&& r is Ok ==> json::lookup(r->Ok_0, "base_url"@) == Some(Json::Text(trimmed)) && (other
                != "base_url"@ ==> json::lookup(r->Ok_0, other) == json::lookup(members, other))
        }),
        ({
            let r = patched(members, "label"@, value);
            let trimmed = text::trim_seq(value->Text_0);
            &&& r is Ok
            &&& !(value is Text) || trimmed.len() == 0 ==> r->Ok_0 == members
            &&& value is Text && 0 < trimmed.len() <= 80 ==> json::lookup(r->Ok_0, "label"@)
                == Some(Json::Text(trimmed))
        }),
{
    reveal_strlit("enabled");
    reveal_strlit("label");
    reveal_strlit("kind");
    reveal_strlit("base_url");
    assert("enabled"@.len() == 7 && "label"@.len() == 5 && "kind"@.len() == 4 && "base_url"@.len()
        == 8);
    json::lemma_lookup_with_member(members, "enabled"@, value, "enabled"@);
    json::lemma_lookup_with_member(members, "enabled"@, value, other);
    if value is Text {
        let kept = Json::Text(text::trim_seq(value->Text_0));
        json::lemma_lookup_with_member(members, "base_url"@, kept, "base_url"@);
        json::lemma_lookup_with_member(members, "base_url"@, kept, other);
        json::lemma_lookup_with_member(members, "label"@, kept, "label"@);
    }
}

/// A patch that names one provider changes that provider as the patch of its own
/// settings says, starting from being off where it had none.
pub proof fn patched_providers_hold_their_patch(
    merged: Seq<(Seq<char>, Json)>,
    id: Seq<char>,
    patch: Json,
)
    requires
        normalize::provider_id_of(id) == Ok::<Seq<char>, Seq<char>>(id),
    ensures
        ({
            let r = merged_provider(merged, id, patch);
            let before = match json::lookup(merged, id) {
                Some(v) => v,
                None => new_entry(id),
            };
            &&& r is Ok <==> merged_entry(before, patch) is Ok
            &&& r is Ok ==> json::lookup(r->Ok_0, id) == Some(merged_entry(before, patch)->Ok_0)
            &&& json::json_get(new_entry(id), "enabled"@) == Some(Json::Bool(false))
            &&& json::json_get(new_entry(id), "kind"@) == Some(Json::Text("extension"@))
            &&& json::json_get(new_entry(id), "label"@) == Some(Json::Text(id))
        }),
{
    let before = match json::lookup(merged, id) {
        Some(v) => v,
        None => new_entry(id),
    };
    lemma_entry_names_differ();
    let m = new_entry(id)->Object_0;
    json::lemma_lookup_at(m, "enabled"@, 0);
    json::lemma_lookup_at(m, "kind"@, 1);
    json::lemma_lookup_at(m, "label"@, 2);
    if merged_entry(before, patch) is Ok {
        json::lemma_lookup_with_member(merged, id, merged_entry(before, patch)->Ok_0, id);
    }
}

proof fn lemma_entry_names_differ()
    ensures
        "enabled"@ != "kind"@,
        "enabled"@ != "label"@,
        "kind"@ != "label"@,
{
    reveal_strlit("enabled");
    reveal_strlit("kind");
    reveal_strlit("label");
    assert("enabled"@.len() == 7);
    assert("kind"@.len() == 4);
    assert("label"@.len() == 5);
}

/// Before any patch the chapters and the two databases are on, and Anime Skip and
/// the two detectors are off.
pub proof fn default_switches(k: Seq<char>)
    ensures
        k == "chapter"@ || k == "aniskip"@ || k == "theintrodb"@ ==> enabled_setting(
            json::json_get(default_settings(), k),
            false,
        ),
        k == "anime_skip"@ || k == "local_audio_recurring"@ || k == "local_visual_recurring"@
            ==> json::json_get(default_settings(), k) is Some && !enabled_setting(
            json::json_get(default_settings(), k),
            true,
        ),
{
    lemma_default_names_differ();
    lemma_entry_names_differ();
    let m = default_settings()->Object_0;
    json::lemma_lookup_at(m, "anime_skip"@, 0);
    json::lemma_lookup_at(m, "aniskip"@, 1);
    json::lemma_lookup_at(m, "chapter"@, 2);
    json::lemma_lookup_at(m, "local_audio_recurring"@, 3);
    json::lemma_lookup_at(m, "local_visual_recurring"@, 4);
    json::lemma_lookup_at(m, "theintrodb"@, 5);
    json::lemma_lookup_at(default_anime_skip()->Object_0, "enabled"@, 0);
    json::lemma_lookup_at(default_aniskip()->Object_0, "enabled"@, 0);
    json::lemma_lookup_at(default_chapter()->Object_0, "enabled"@, 0);
    json::lemma_lookup_at(default_theintrodb()->Object_0, "enabled"@, 0);
    json::lemma_lookup_at(default_local_audio_recurring()->Object_0, "enabled"@, 0);
    reveal_strlit("black_ratio_threshold");
    reveal_strlit("enabled");
    assert("black_ratio_threshold"@.len() == 21 && "enabled"@.len() == 7);
    json::lemma_lookup_at(default_local_visual_recurring()->Object_0, "enabled"@, 1);
}

proof fn lemma_default_names_differ()
    ensures
        "anime_skip"@ != "aniskip"@,
        "anime_skip"@ != "chapter"@,
        "anime_skip"@ != "local_audio_recurring"@,
        "anime_skip"@ != "local_visual_recurring"@,
        "anime_skip"@ != "theintrodb"@,
        "aniskip"@ != "chapter"@,
        "aniskip"@ != "local_audio_recurring"@,
        "aniskip"@ != "local_visual_recurring"@,
        "aniskip"@ != "theintrodb"@,
        "chapter"@ != "local_audio_recurring"@,
        "chapter"@ != "local_visual_recurring"@,
        "chapter"@ != "theintrodb"@,
        "local_audio_recurring"@ != "local_visual_recurring"@,
        "local_audio_recurring"@ != "theintrodb"@,
        "local_visual_recurring"@ != "theintrodb"@,
{
    reveal_strlit("anime_skip");
    reveal_strlit("aniskip");
    reveal_strlit("chapter");
    reveal_strlit("local_audio_recurring");
    reveal_strlit("local_visual_recurring");
    reveal_strlit("theintrodb");
    assert("anime_skip"@.len() == 10);
    assert("aniskip"@.len() == 7);
    assert("chapter"@.len() == 7);
    assert("local_audio_recurring"@.len() == 21);
    assert("local_visual_recurring"@.len() == 22);
    assert("theintrodb"@.len() == 10);
    assert("anime_skip"@[0] == 'a');
    assert("aniskip"@[0] == 'a');
    assert("chapter"@[0] == 'c');
    assert("theintrodb"@[0] == 't');
}

/// A provider is asked at the address in its settings, else at the default, and only
/// at an address of the web.
pub proof fn providers_are_asked_on_the_web(settings: Option<Json>, default: Seq<char>)
    ensures
        ({
            let r = base_url_of(settings, default);
            &&& r is Ok ==> text::has_prefix_seq(r->Ok_0, "http://"@) || text::has_prefix_seq(
                r->Ok_0,
                "https://"@,
            )
            &&& settings is None && (text::has_prefix_seq(text::trim_seq(default), "http://"@)
                || text::has_prefix_seq(text::trim_seq(default), "https://"@)) ==> r == Ok::<
                Seq<char>,
                Seq<char>,
            >(text::trim_seq(default))
            &&& settings is Some ==> match json::json_get(settings->0, "base_url"@) {
                Some(Json::Text(t)) => {
                    let shown = text::trim_seq(t);
                    &&& text::has_prefix_seq(shown, "http://"@) || text::has_prefix_seq(
                        shown,
                        "https://"@,
                    ) ==> r == Ok::<Seq<char>, Seq<char>>(shown)
                    &&& !text::has_prefix_seq(shown, "http://"@) && !text::has_prefix_seq(
                        shown,
                        "https://"@,
                    ) ==> r is Err
                },
                _ => true,
            }
        }),
{
}

/// How many files must repeat a window: what the settings say within its range, else the default.
pub proof fn read_local_audio_min_repeat_count(settings: Option<&JsonValue>, r: usize, n: i64)
    requires
        call_ensures(local_audio_min_repeat_count, (settings,), r),
    ensures
        2 <= r <= 20,
        settings is None ==> r == 2,
        settings is Some && json::json_get(settings->0@, "min_repeat_count"@) is None && json::json_get(
            settings->0@,
            "minRepeatCount"@,
        ) is None ==> r == 2,
        settings is Some && json::json_get(settings->0@, "min_repeat_count"@) == Some(whole_json(n)) ==> r
            == if 2 <= n <= 20 {
            n as int
        } else {
            2
        },
        settings is Some && json::json_get(settings->0@, "min_repeat_count"@) is None && json::json_get(
            settings->0@,
            "minRepeatCount"@,
        ) == Some(whole_json(n)) && 2 <= n <= 20 ==> r == n,
{
}

/// How many files of a season the audio detector needs: what the settings say within its range, else the default.
pub proof fn read_local_audio_min_season_files(settings: Option<&JsonValue>, r: usize, n: i64)
    requires
        call_ensures(local_audio_min_season_files, (settings,), r),
    ensures
        2 <= r <= 50,
        settings is None ==> r == 2,
        settings is Some && json::json_get(settings->0@, "min_season_files"@) is None && json::json_get(
            settings->0@,
            "minSeasonFiles"@,
        ) is None ==> r == 2,
        settings is Some && json::json_get(settings->0@, "min_season_files"@) == Some(whole_json(n)) ==> r
            == if 2 <= n <= 50 {
            n as int
        } else {
            2
        },
        settings is Some && json::json_get(settings->0@, "min_season_files"@) is None && json::json_get(
            settings->0@,
            "minSeasonFiles"@,
        ) == Some(whole_json(n)) && 2 <= n <= 50 ==> r == n,
{
}

/// How long the extraction of audio may take: what the settings say within its range, else the default.
pub proof fn read_local_audio_fingerprint_timeout_seconds(settings: Option<&JsonValue>, r: u64, n: i64)
    requires
        call_ensures(local_audio_fingerprint_timeout_seconds, (settings,), r),
    ensures
        5 <= r <= 600,
        settings is None ==> r == 120,
        settings is Some && json::json_get(settings->0@, "fingerprint_timeout_seconds"@) is None && json::json_get(
            settings->0@,
            "fingerprintTimeoutSeconds"@,
        ) is None ==> r == 120,
        settings is Some && json::json_get(settings->0@, "fingerprint_timeout_seconds"@) == Some(whole_json(n)) ==> r
            == if 5 <= n <= 600 {
            n as int
        } else {
            120
        },
        settings is Some && json::json_get(settings->0@, "fingerprint_timeout_seconds"@) is None && json::json_get(
            settings->0@,
            "fingerprintTimeoutSeconds"@,
        ) == Some(whole_json(n)) && 5 <= n <= 600 ==> r == n,
{
}

/// How long the extraction of frames may take: what the settings say within its range, else the default.
pub proof fn read_local_visual_frame_hash_timeout_seconds(settings: Option<&JsonValue>, r: u64, n: i64)
    requires
        call_ensures(local_visual_frame_hash_timeout_seconds, (settings,), r),
    ensures
        5 <= r <= 900,
        settings is None ==> r == 180,
        settings is Some && json::json_get(settings->0@, "frame_hash_timeout_seconds"@) is None && json::json_get(
            settings->0@,
            "frameHashTimeoutSeconds"@,
        ) is None ==> r == 180,
        settings is Some && json::json_get(settings->0@, "frame_hash_timeout_seconds"@) == Some(whole_json(n)) ==> r
            == if 5 <= n <= 900 {
            n as int
        } else {
            180
        },
        settings is Some && json::json_get(settings->0@, "frame_hash_timeout_seconds"@) is None && json::json_get(
            settings->0@,
            "frameHashTimeoutSeconds"@,
        ) == Some(whole_json(n)) && 5 <= n <= 900 ==> r == n,
{
}

/// How many frames are sampled at most: what the settings say within its range, else the default.
pub proof fn read_local_visual_frame_hash_max_frames(settings: Option<&JsonValue>, r: usize, n: i64)
    requires
        call_ensures(local_visual_frame_hash_max_frames, (settings,), r),
    ensures
        10 <= r <= 500,
        settings is None ==> r == 120,
        settings is Some && json::json_get(settings->0@, "frame_hash_max_frames"@) is None && json::json_get(
            settings->0@,
            "frameHashMaxFrames"@,
        ) is None ==> r == 120,
        settings is Some && json::json_get(settings->0@, "frame_hash_max_frames"@) == Some(whole_json(n)) ==> r
            == if 10 <= n <= 500 {
            n as int
        } else {
            120
        },
        settings is Some && json::json_get(settings->0@, "frame_hash_max_frames"@) is None && json::json_get(
            settings->0@,
            "frameHashMaxFrames"@,
        ) == Some(whole_json(n)) && 10 <= n <= 500 ==> r == n,
{
}

/// How many frames a run of credits needs: what the settings say within its range, else the default.
pub proof fn read_local_visual_min_frame_count(settings: Option<&JsonValue>, r: usize, n: i64)
    requires
        call_ensures(local_visual_min_frame_count, (settings,), r),
    ensures
        2 <= r <= 20,
        settings is None ==> r == 3,
        settings is Some && json::json_get(settings->0@, "min_frame_count"@) is None && json::json_get(
            settings->0@,
            "minFrameCount"@,
        ) is None ==> r == 3,
        settings is Some && json::json_get(settings->0@, "min_frame_count"@) == Some(whole_json(n)) ==> r
            == if 2 <= n <= 20 {
            n as int
        } else {
            3
        },
        settings is Some && json::json_get(settings->0@, "min_frame_count"@) is None && json::json_get(
            settings->0@,
            "minFrameCount"@,
        ) == Some(whole_json(n)) && 2 <= n <= 20 ==> r == n,
{
}

/// How many frames make a scene after the credits: what the settings say within its range, else the default.
pub proof fn read_local_visual_post_credit_scene_min_frames(settings: Option<&JsonValue>, r: usize, n: i64)
    requires
        call_ensures(local_visual_post_credit_scene_min_frames, (settings,), r),
    ensures
        1 <= r <= 20,
        settings is None ==> r == 2,
        settings is Some && json::json_get(settings->0@, "post_credit_scene_min_frames"@) is None && json::json_get(
            settings->0@,
            "postCreditSceneMinFrames"@,
        ) is None ==> r == 2,
        settings is Some && json::json_get(settings->0@, "post_credit_scene_min_frames"@) == Some(whole_json(n)) ==> r
            == if 1 <= n <= 20 {
            n as int
        } else {
            2
        },
        settings is Some && json::json_get(settings->0@, "post_credit_scene_min_frames"@) is None && json::json_get(
            settings->0@,
            "postCreditSceneMinFrames"@,
        ) == Some(whole_json(n)) && 1 <= n <= 20 ==> r == n,
{
}

/// How long a reply is kept: what the settings say within its range, else the default.
pub proof fn read_provider_cache_ttl_seconds(settings: Option<&JsonValue>, r: i64, n: i64)
    requires
        call_ensures(provider_cache_ttl_seconds, (settings,), r),
    ensures
        0 <= r <= 2_592_000,
        settings is None ==> r == 86_400,
        settings is Some && json::json_get(settings->0@, "cache_ttl_seconds"@) is None && json::json_get(
            settings->0@,
            "cacheTtlSeconds"@,
        ) is None ==> r == 86_400,
        settings is Some && json::json_get(settings->0@, "cache_ttl_seconds"@) == Some(whole_json(n)) ==> r
            == if 0 <= n <= 2_592_000 {
            n as int
        } else {
            86_400
        },
        settings is Some && json::json_get(settings->0@, "cache_ttl_seconds"@) is None && json::json_get(
            settings->0@,
            "cacheTtlSeconds"@,
        ) == Some(whole_json(n)) && 0 <= n <= 2_592_000 ==> r == n,
{
}

/// How often a provider may be asked in a minute: what the settings say within its range, else the default.
pub proof fn read_provider_rate_limit_per_minute(settings: Option<&JsonValue>, r: i64, n: i64)
    requires
        call_ensures(provider_rate_limit_per_minute, (settings,), r),
    ensures
        1 <= r <= 600,
        settings is None ==> r == 30,
        settings is Some && json::json_get(settings->0@, "rate_limit_per_minute"@) is None && json::json_get(
            settings->0@,
            "rateLimitPerMinute"@,
        ) is None ==> r == 30,
        settings is Some && json::json_get(settings->0@, "rate_limit_per_minute"@) == Some(whole_json(n)) ==> r
            == if 1 <= n <= 600 {
            n as int
        } else {
            30
        },
        settings is Some && json::json_get(settings->0@, "rate_limit_per_minute"@) is None && json::json_get(
            settings->0@,
            "rateLimitPerMinute"@,
        ) == Some(whole_json(n)) && 1 <= n <= 600 ==> r == n,
{
}

/// How long a request may take: what the settings say within its range, else the default.
pub proof fn read_provider_timeout_millis(settings: Option<&JsonValue>, r: u64, n: i64)
    requires
        call_ensures(provider_timeout_millis, (settings,), r),
    ensures
        250 <= r <= 30_000,
        settings is None ==> r == 8_000,
        settings is Some && json::json_get(settings->0@, "timeout_ms"@) is None && json::json_get(
            settings->0@,
            "timeoutMs"@,
        ) is None ==> r == 8_000,
        settings is Some && json::json_get(settings->0@, "timeout_ms"@) == Some(whole_json(n)) ==> r
            == if 250 <= n <= 30_000 {
            n as int
        } else {
            8_000
        },
        settings is Some && json::json_get(settings->0@, "timeout_ms"@) is None && json::json_get(
            settings->0@,
            "timeoutMs"@,
        ) == Some(whole_json(n)) && 250 <= n <= 30_000 ==> r == n,
{
}

/// The time between two frames: what the settings say within its range, else the default.
pub proof fn read_local_visual_frame_hash_step_micros(settings: Option<&JsonValue>, r: i64, n: i64)
    requires
        call_ensures(local_visual_frame_hash_step_micros, (settings,), r),
    ensures
        5_000_000 <= r <= 120_000_000,
        settings is None ==> r == 30_000_000,
        settings is Some && json::json_get(settings->0@, "frame_hash_step_seconds"@) is None && json::json_get(
            settings->0@,
            "frameHashStepSeconds"@,
        ) is None ==> r == 30_000_000,
        settings is Some && json::json_get(settings->0@, "frame_hash_step_seconds"@) == Some(Json::Number(JsonNumber::Fraction(n))) ==> r
            == if 5_000_000 <= n <= 120_000_000 {
            n as int
        } else {
            30_000_000
        },
        settings is Some && json::json_get(settings->0@, "frame_hash_step_seconds"@) is None && json::json_get(
            settings->0@,
            "frameHashStepSeconds"@,
        ) == Some(Json::Number(JsonNumber::Fraction(n))) && 5_000_000 <= n <= 120_000_000 ==> r == n,
{
}

/// How long a run of credits lasts: what the settings say within its range, else the default.
pub proof fn read_local_visual_min_span_micros(settings: Option<&JsonValue>, r: i64, n: i64)
    requires
        call_ensures(local_visual_min_span_micros, (settings,), r),
    ensures
        10_000_000 <= r <= 600_000_000,
        settings is None ==> r == 20_000_000,
        settings is Some && json::json_get(settings->0@, "min_span_seconds"@) is None && json::json_get(
            settings->0@,
            "minSpanSeconds"@,
        ) is None ==> r == 20_000_000,
        settings is Some && json::json_get(settings->0@, "min_span_seconds"@) == Some(Json::Number(JsonNumber::Fraction(n))) ==> r
            == if 10_000_000 <= n <= 600_000_000 {
            n as int
        } else {
            20_000_000
        },
        settings is Some && json::json_get(settings->0@, "min_span_seconds"@) is None && json::json_get(
            settings->0@,
            "minSpanSeconds"@,
        ) == Some(Json::Number(JsonNumber::Fraction(n))) && 10_000_000 <= n <= 600_000_000 ==> r == n,
{
}

/// Where credits start at the earliest: what the settings say within its range, else the default.
pub proof fn read_local_visual_min_start_fraction(settings: Option<&JsonValue>, r: i64, n: i64)
    requires
        call_ensures(local_visual_min_start_fraction, (settings,), r),
    ensures
        500_000 <= r <= 950_000,
        settings is None ==> r == 600_000,
        settings is Some && json::json_get(settings->0@, "min_start_fraction"@) is None && json::json_get(
            settings->0@,
            "minStartFraction"@,
        ) is None ==> r == 600_000,
        settings is Some && json::json_get(settings->0@, "min_start_fraction"@) == Some(Json::Number(JsonNumber::Fraction(n))) ==> r
            == if 500_000 <= n <= 950_000 {
            n as int
        } else {
            600_000
        },
        settings is Some && json::json_get(settings->0@, "min_start_fraction"@) is None && json::json_get(
            settings->0@,
            "minStartFraction"@,
        ) == Some(Json::Number(JsonNumber::Fraction(n))) && 500_000 <= n <= 950_000 ==> r == n,
{
}

/// The largest gap in a run of credits: what the settings say within its range, else the default.
pub proof fn read_local_visual_max_frame_gap_micros(settings: Option<&JsonValue>, r: i64, n: i64)
    requires
        call_ensures(local_visual_max_frame_gap_micros, (settings,), r),
    ensures
        5_000_000 <= r <= 300_000_000,
        settings is None ==> r == 90_000_000,
        settings is Some && json::json_get(settings->0@, "max_frame_gap_seconds"@) is None && json::json_get(
            settings->0@,
            "maxFrameGapSeconds"@,
        ) is None ==> r == 90_000_000,
        settings is Some && json::json_get(settings->0@, "max_frame_gap_seconds"@) == Some(Json::Number(JsonNumber::Fraction(n))) ==> r
            == if 5_000_000 <= n <= 300_000_000 {
            n as int
        } else {
            90_000_000
        },
        settings is Some && json::json_get(settings->0@, "max_frame_gap_seconds"@) is None && json::json_get(
            settings->0@,
            "maxFrameGapSeconds"@,
        ) == Some(Json::Number(JsonNumber::Fraction(n))) && 5_000_000 <= n <= 300_000_000 ==> r == n,
{
}

/// How long a scene after the credits lasts: what the settings say within its range, else the default.
pub proof fn read_local_visual_post_credit_scene_min_span_micros(settings: Option<&JsonValue>, r: i64, n: i64)
    requires
        call_ensures(local_visual_post_credit_scene_min_span_micros, (settings,), r),
    ensures
        5_000_000 <= r <= 300_000_000,
        settings is None ==> r == 20_000_000,
        settings is Some && json::json_get(settings->0@, "post_credit_scene_min_span_seconds"@) is None && json::json_get(
            settings->0@,
            "postCreditSceneMinSpanSeconds"@,
        ) is None ==> r == 20_000_000,
        settings is Some && json::json_get(settings->0@, "post_credit_scene_min_span_seconds"@) == Some(Json::Number(JsonNumber::Fraction(n))) ==> r
            == if 5_000_000 <= n <= 300_000_000 {
            n as int
        } else {
            20_000_000
        },
        settings is Some && json::json_get(settings->0@, "post_credit_scene_min_span_seconds"@) is None && json::json_get(
            settings->0@,
            "postCreditSceneMinSpanSeconds"@,
        ) == Some(Json::Number(JsonNumber::Fraction(n))) && 5_000_000 <= n <= 300_000_000 ==> r == n,
{
}

/// How dark a frame of credits is: what the settings say within its range, else the default.
pub proof fn read_local_visual_black_ratio_threshold(settings: Option<&JsonValue>, r: i64, n: i64)
    requires
        call_ensures(local_visual_black_ratio_threshold, (settings,), r),
    ensures
        100_000 <= r <= 1_000_000,
        settings is None ==> r == 700_000,
        settings is Some && json::json_get(settings->0@, "black_ratio_threshold"@) is None && json::json_get(
            settings->0@,
            "blackRatioThreshold"@,
        ) is None ==> r == 700_000,
        settings is Some && json::json_get(settings->0@, "black_ratio_threshold"@) == Some(Json::Number(JsonNumber::Fraction(n))) ==> r
            == if 100_000 <= n <= 1_000_000 {
            n as int
        } else {
            700_000
        },
        settings is Some && json::json_get(settings->0@, "black_ratio_threshold"@) is None && json::json_get(
            settings->0@,
            "blackRatioThreshold"@,
        ) == Some(Json::Number(JsonNumber::Fraction(n))) && 100_000 <= n <= 1_000_000 ==> r == n,
{
}

/// How much text a frame of credits shows: what the settings say within its range, else the default.
pub proof fn read_local_visual_text_ratio_threshold(settings: Option<&JsonValue>, r: i64, n: i64)
    requires
        call_ensures(local_visual_text_ratio_threshold, (settings,), r),
    ensures
        10_000 <= r <= 1_000_000,
        settings is None ==> r == 80_000,
        settings is Some && json::json_get(settings->0@, "text_ratio_threshold"@) is None && json::json_get(
            settings->0@,
            "textRatioThreshold"@,
        ) is None ==> r == 80_000,
        settings is Some && json::json_get(settings->0@, "text_ratio_threshold"@) == Some(Json::Number(JsonNumber::Fraction(n))) ==> r
            == if 10_000 <= n <= 1_000_000 {
            n as int
        } else {
            80_000
        },
        settings is Some && json::json_get(settings->0@, "text_ratio_threshold"@) is None && json::json_get(
            settings->0@,
            "textRatioThreshold"@,
        ) == Some(Json::Number(JsonNumber::Fraction(n))) && 10_000 <= n <= 1_000_000 ==> r == n,
{
}

/// A built-in provider is on only where its settings say so, and an installed one unless
/// they say otherwise.
pub proof fn read_switches(settings: Option<&JsonValue>, builtin: bool, installed: bool)
    requires
        call_ensures(provider_settings_enabled, (settings,), builtin),
        call_ensures(marketplace_provider_settings_enabled, (settings,), installed),
    ensures
        builtin <==> settings is Some && json::json_get(settings->0@, "enabled"@) == Some(
            Json::Bool(true),
        ),
        !installed <==> settings is Some && json::json_get(settings->0@, "enabled"@) == Some(
            Json::Bool(false),
        ),
{
}

/// What a patch is refused for: a switch that is no truth value, an address that is none
/// of the web, a number outside its range, and what is neither an object nor a switch.
pub proof fn refused_patches_say_why(members: Seq<(Seq<char>, Json)>, current: Json, patch: Json)
    ensures
        !(patch is Bool) ==> patched(members, "enabled"@, patch) == Err::<
            Seq<(Seq<char>, Json)>,
            Seq<char>,
        >("provider enabled setting must be boolean"@),
        !(patch is Text) ==> patched(members, "base_url"@, patch) == Err::<
            Seq<(Seq<char>, Json)>,
            Seq<char>,
        >("provider base_url must be an http(s) URL"@),
        !(patch is Bool) && !(patch is Object) ==> merged_entry(current, patch) == Err::<
            Json,
            Seq<char>,
        >("provider setting must be an object or boolean"@),
        !(current is Object) ==> merged_settings(current, patch) == Err::<Json, Seq<char>>(
            "segment_provider_settings must be a JSON object"@,
        ),
{
    reveal_strlit("enabled");
    reveal_strlit("label");
    reveal_strlit("kind");
    reveal_strlit("base_url");
    assert("enabled"@.len() == 7 && "label"@.len() == 5 && "kind"@.len() == 4 && "base_url"@.len()
        == 8);
}

/// A member that the settings do not know changes nothing.
pub proof fn unknown_members_are_ignored(
    members: Seq<(Seq<char>, Json)>,
    key: Seq<char>,
    value: Json,
)
    requires
        key.len() <= 3,
    ensures
        patched(members, key, value) == Ok::<Seq<(Seq<char>, Json)>, Seq<char>>(members),
{
    lemma_known_names_are_longer(key);
}

proof fn lemma_known_names_are_longer(key: Seq<char>)
    requires
        key.len() <= 3,
    ensures
        rule_of(key) is Ignored,
{
    reveal_strlit("timeout_ms");
    reveal_strlit("timeoutMs");
    reveal_strlit("cache_ttl_seconds");
    reveal_strlit("cacheTtlSeconds");
    reveal_strlit("rate_limit_per_minute");
    reveal_strlit("rateLimitPerMinute");
    reveal_strlit("min_repeat_count");
    reveal_strlit("minRepeatCount");
    reveal_strlit("min_frame_count");
    reveal_strlit("minFrameCount");
    reveal_strlit("min_season_files");
    reveal_strlit("minSeasonFiles");
    reveal_strlit("post_credit_scene_min_frames");
    reveal_strlit("postCreditSceneMinFrames");
    reveal_strlit("frame_hash_max_frames");
    reveal_strlit("frameHashMaxFrames");
    reveal_strlit("fingerprint_timeout_seconds");
    reveal_strlit("fingerprintTimeoutSeconds");
    reveal_strlit("frame_hash_timeout_seconds");
    reveal_strlit("frameHashTimeoutSeconds");
    reveal_strlit("min_span_seconds");
    reveal_strlit("minSpanSeconds");
    reveal_strlit("min_start_fraction");
    reveal_strlit("minStartFraction");
    reveal_strlit("max_frame_gap_seconds");
    reveal_strlit("maxFrameGapSeconds");
    reveal_strlit("black_ratio_threshold");
    reveal_strlit("blackRatioThreshold");
    reveal_strlit("text_ratio_threshold");
    reveal_strlit("textRatioThreshold");
    reveal_strlit("post_credit_scene_min_span_seconds");
    reveal_strlit("postCreditSceneMinSpanSeconds");
    reveal_strlit("frame_hash_step_seconds");
    reveal_strlit("frameHashStepSeconds");
    reveal_strlit("enabled");
    reveal_strlit("label");
    reveal_strlit("kind");
    reveal_strlit("base_url");
    reveal_strlit("baseUrl");
    assert("timeout_ms"@.len() == 10);
    assert("timeoutMs"@.len() == 9);
    assert("cache_ttl_seconds"@.len() == 17);
    assert("cacheTtlSeconds"@.len() == 15);
    assert("rate_limit_per_minute"@.len() == 21);
    assert("rateLimitPerMinute"@.len() == 18);
    assert("min_repeat_count"@.len() == 16);
    assert("minRepeatCount"@.len() == 14);
    assert("min_frame_count"@.len() == 15);
    assert("minFrameCount"@.len() == 13);
    assert("min_season_files"@.len() == 16);
    assert("minSeasonFiles"@.len() == 14);
    assert("post_credit_scene_min_frames"@.len() == 28);
    assert("postCreditSceneMinFrames"@.len() == 24);
    assert("frame_hash_max_frames"@.len() == 21);
    assert("frameHashMaxFrames"@.len() == 18);
    assert("fingerprint_timeout_seconds"@.len() == 27);
    assert("fingerprintTimeoutSeconds"@.len() == 25);
    assert("frame_hash_timeout_seconds"@.len() == 26);
    assert("frameHashTimeoutSeconds"@.len() == 23);
    assert("min_span_seconds"@.len() == 16);
    assert("minSpanSeconds"@.len() == 14);
    assert("min_start_fraction"@.len() == 18);
    assert("minStartFraction"@.len() == 16);
    assert("max_frame_gap_seconds"@.len() == 21);
    assert("maxFrameGapSeconds"@.len() == 18);
    assert("black_ratio_threshold"@.len() == 21);
    assert("blackRatioThreshold"@.len() == 19);
    assert("text_ratio_threshold"@.len() == 20);
    assert("textRatioThreshold"@.len() == 18);
    assert("post_credit_scene_min_span_seconds"@.len() == 34);
    assert("postCreditSceneMinSpanSeconds"@.len() == 29);
    assert("frame_hash_step_seconds"@.len() == 23);
    assert("frameHashStepSeconds"@.len() == 20);
    assert("enabled"@.len() == 7);
    assert("label"@.len() == 5);
    assert("kind"@.len() == 4);
    assert("base_url"@.len() == 8);
    assert("baseUrl"@.len() == 7);
}

/// What the settings of each provider are before any patch: what it is, what it is called
/// and the limits that hold.
#[verifier::spinoff_prover]
#[verifier::rlimit(40)]
pub proof fn default_entries()
    ensures
        json::json_get(default_anime_skip(), "kind"@) == Some(Json::Text("built_in_network"@)),
        json::json_get(default_anime_skip(), "label"@) == Some(Json::Text("Anime Skip"@)),
        json::json_get(default_aniskip(), "kind"@) == Some(Json::Text("built_in_network"@)),
        json::json_get(default_aniskip(), "label"@) == Some(Json::Text("AniSkip"@)),
        json::json_get(default_chapter(), "kind"@) == Some(Json::Text("local_metadata"@)),
        json::json_get(default_chapter(), "label"@) == Some(Json::Text("Embedded chapters"@)),
        json::json_get(default_local_audio_recurring(), "kind"@) == Some(Json::Text("local_detector"@)),
        json::json_get(default_local_audio_recurring(), "label"@) == Some(Json::Text("Local audio recurring detector"@)),
        json::json_get(default_local_visual_recurring(), "kind"@) == Some(Json::Text("local_detector"@)),
        json::json_get(default_local_visual_recurring(), "label"@) == Some(Json::Text("Local visual recurring detector"@)),
        json::json_get(default_theintrodb(), "kind"@) == Some(Json::Text("built_in_network"@)),
        json::json_get(default_theintrodb(), "label"@) == Some(Json::Text("TheIntroDB"@)),
        json::json_get(default_aniskip(), "rate_limit_per_minute"@) == Some(
            Json::Number(JsonNumber::Unsigned(30)),
        ),
        json::json_get(default_theintrodb(), "rate_limit_per_minute"@) == Some(
            Json::Number(JsonNumber::Unsigned(30)),
        ),
        json::json_get(default_local_audio_recurring(), "fingerprint_timeout_seconds"@) == Some(
            Json::Number(JsonNumber::Unsigned(120)),
        ),
        json::json_get(default_local_audio_recurring(), "min_repeat_count"@) == Some(
            Json::Number(JsonNumber::Unsigned(2)),
        ),
        json::json_get(default_local_audio_recurring(), "min_season_files"@) == Some(
            Json::Number(JsonNumber::Unsigned(2)),
        ),
        json::json_get(default_local_visual_recurring(), "black_ratio_threshold"@) == Some(
            Json::Number(JsonNumber::Fraction(700_000)),
        ),
        json::json_get(default_local_visual_recurring(), "frame_hash_max_frames"@) == Some(
            Json::Number(JsonNumber::Unsigned(120)),
        ),
        json::json_get(default_local_visual_recurring(), "frame_hash_step_seconds"@) == Some(
            Json::Number(JsonNumber::Fraction(30_000_000)),
        ),
        json::json_get(default_local_visual_recurring(), "frame_hash_timeout_seconds"@) == Some(
            Json::Number(JsonNumber::Unsigned(180)),
        ),
        json::json_get(default_local_visual_recurring(), "max_frame_gap_seconds"@) == Some(
            Json::Number(JsonNumber::Fraction(90_000_000)),
        ),
        json::json_get(default_local_visual_recurring(), "min_frame_count"@) == Some(
            Json::Number(JsonNumber::Unsigned(3)),
        ),
        json::json_get(default_local_visual_recurring(), "min_span_seconds"@) == Some(
            Json::Number(JsonNumber::Fraction(20_000_000)),
        ),
        json::json_get(default_local_visual_recurring(), "min_start_fraction"@) == Some(
            Json::Number(JsonNumber::Fraction(600_000)),
        ),
        json::json_get(default_local_visual_recurring(), "post_credit_scene_min_frames"@) == Some(
            Json::Number(JsonNumber::Unsigned(2)),
        ),
        json::json_get(default_local_visual_recurring(), "post_credit_scene_min_span_seconds"@) == Some(
            Json::Number(JsonNumber::Fraction(20_000_000)),
        ),
        json::json_get(default_local_visual_recurring(), "text_ratio_threshold"@) == Some(
            Json::Number(JsonNumber::Fraction(80_000)),
        ),
{
    lemma_visual_names_differ();
    lemma_audio_names_differ();
    json::lemma_lookup_at(default_anime_skip()->Object_0, "kind"@, 1);
    json::lemma_lookup_at(default_anime_skip()->Object_0, "label"@, 2);
    json::lemma_lookup_at(default_aniskip()->Object_0, "kind"@, 1);
    json::lemma_lookup_at(default_aniskip()->Object_0, "label"@, 2);
    json::lemma_lookup_at(default_chapter()->Object_0, "kind"@, 1);
    json::lemma_lookup_at(default_chapter()->Object_0, "label"@, 2);
    json::lemma_lookup_at(default_local_audio_recurring()->Object_0, "kind"@, 2);
    json::lemma_lookup_at(default_local_audio_recurring()->Object_0, "label"@, 3);
    json::lemma_lookup_at(default_local_visual_recurring()->Object_0, "kind"@, 5);
    json::lemma_lookup_at(default_local_visual_recurring()->Object_0, "label"@, 6);
    json::lemma_lookup_at(default_theintrodb()->Object_0, "kind"@, 1);
    json::lemma_lookup_at(default_theintrodb()->Object_0, "label"@, 2);
    json::lemma_lookup_at(default_aniskip()->Object_0, "rate_limit_per_minute"@, 3);
    json::lemma_lookup_at(default_theintrodb()->Object_0, "rate_limit_per_minute"@, 3);
    json::lemma_lookup_at(default_local_audio_recurring()->Object_0, "fingerprint_timeout_seconds"@, 1);
    json::lemma_lookup_at(default_local_audio_recurring()->Object_0, "min_repeat_count"@, 4);
    json::lemma_lookup_at(default_local_audio_recurring()->Object_0, "min_season_files"@, 5);
    json::lemma_lookup_at(default_local_visual_recurring()->Object_0, "black_ratio_threshold"@, 0);
    json::lemma_lookup_at(default_local_visual_recurring()->Object_0, "frame_hash_max_frames"@, 2);
    json::lemma_lookup_at(default_local_visual_recurring()->Object_0, "frame_hash_step_seconds"@, 3);
    json::lemma_lookup_at(default_local_visual_recurring()->Object_0, "frame_hash_timeout_seconds"@, 4);
    json::lemma_lookup_at(default_local_visual_recurring()->Object_0, "max_frame_gap_seconds"@, 7);
    json::lemma_lookup_at(default_local_visual_recurring()->Object_0, "min_frame_count"@, 8);
    json::lemma_lookup_at(default_local_visual_recurring()->Object_0, "min_span_seconds"@, 9);
    json::lemma_lookup_at(default_local_visual_recurring()->Object_0, "min_start_fraction"@, 10);
    json::lemma_lookup_at(default_local_visual_recurring()->Object_0, "post_credit_scene_min_frames"@, 11);
    json::lemma_lookup_at(default_local_visual_recurring()->Object_0, "post_credit_scene_min_span_seconds"@, 12);
    json::lemma_lookup_at(default_local_visual_recurring()->Object_0, "text_ratio_threshold"@, 13);
}

proof fn lemma_visual_names_differ()
    ensures
        "black_ratio_threshold"@ != "enabled"@,
        "black_ratio_threshold"@ != "frame_hash_max_frames"@,
        "black_ratio_threshold"@ != "frame_hash_step_seconds"@,
        "black_ratio_threshold"@ != "frame_hash_timeout_seconds"@,
        "black_ratio_threshold"@ != "kind"@,
        "black_ratio_threshold"@ != "label"@,
        "black_ratio_threshold"@ != "max_frame_gap_seconds"@,
        "black_ratio_threshold"@ != "min_frame_count"@,
        "black_ratio_threshold"@ != "min_span_seconds"@,
        "black_ratio_threshold"@ != "min_start_fraction"@,
        "black_ratio_threshold"@ != "post_credit_scene_min_frames"@,
        "black_ratio_threshold"@ != "post_credit_scene_min_span_seconds"@,
        "black_ratio_threshold"@ != "text_ratio_threshold"@,
        "enabled"@ != "frame_hash_max_frames"@,
        "enabled"@ != "frame_hash_step_seconds"@,
        "enabled"@ != "frame_hash_timeout_seconds"@,
        "enabled"@ != "kind"@,
        "enabled"@ != "label"@,
        "enabled"@ != "max_frame_gap_seconds"@,
        "enabled"@ != "min_frame_count"@,
        "enabled"@ != "min_span_seconds"@,
        "enabled"@ != "min_start_fraction"@,
        "enabled"@ != "post_credit_scene_min_frames"@,
        "enabled"@ != "post_credit_scene_min_span_seconds"@,
        "enabled"@ != "text_ratio_threshold"@,
        "frame_hash_max_frames"@ != "frame_hash_step_seconds"@,
        "frame_hash_max_frames"@ != "frame_hash_timeout_seconds"@,
        "frame_hash_max_frames"@ != "kind"@,
        "frame_hash_max_frames"@ != "label"@,
        "frame_hash_max_frames"@ != "max_frame_gap_seconds"@,
        "frame_hash_max_frames"@ != "min_frame_count"@,
        "frame_hash_max_frames"@ != "min_span_seconds"@,
        "frame_hash_max_frames"@ != "min_start_fraction"@,
        "frame_hash_max_frames"@ != "post_credit_scene_min_frames"@,
        "frame_hash_max_frames"@ != "post_credit_scene_min_span_seconds"@,
        "frame_hash_max_frames"@ != "text_ratio_threshold"@,
        "frame_hash_step_seconds"@ != "frame_hash_timeout_seconds"@,
        "frame_hash_step_seconds"@ != "kind"@,
        "frame_hash_step_seconds"@ != "label"@,
        "frame_hash_step_seconds"@ != "max_frame_gap_seconds"@,
        "frame_hash_step_seconds"@ != "min_frame_count"@,
        "frame_hash_step_seconds"@ != "min_span_seconds"@,
        "frame_hash_step_seconds"@ != "min_start_fraction"@,
        "frame_hash_step_seconds"@ != "post_credit_scene_min_frames"@,
        "frame_hash_step_seconds"@ != "post_credit_scene_min_span_seconds"@,
        "frame_hash_step_seconds"@ != "text_ratio_threshold"@,
        "frame_hash_timeout_seconds"@ != "kind"@,
        "frame_hash_timeout_seconds"@ != "label"@,
        "frame_hash_timeout_seconds"@ != "max_frame_gap_seconds"@,
        "frame_hash_timeout_seconds"@ != "min_frame_count"@,
        "frame_hash_timeout_seconds"@ != "min_span_seconds"@,
        "frame_hash_timeout_seconds"@ != "min_start_fraction"@,
        "frame_hash_timeout_seconds"@ != "post_credit_scene_min_frames"@,
        "frame_hash_timeout_seconds"@ != "post_credit_scene_min_span_seconds"@,
        "frame_hash_timeout_seconds"@ != "text_ratio_threshold"@,
        "kind"@ != "label"@,
        "kind"@ != "max_frame_gap_seconds"@,
        "kind"@ != "min_frame_count"@,
        "kind"@ != "min_span_seconds"@,
        "kind"@ != "min_start_fraction"@,
        "kind"@ != "post_credit_scene_min_frames"@,
        "kind"@ != "post_credit_scene_min_span_seconds"@,
        "kind"@ != "text_ratio_threshold"@,
        "label"@ != "max_frame_gap_seconds"@,
        "label"@ != "min_frame_count"@,
        "label"@ != "min_span_seconds"@,
        "label"@ != "min_start_fraction"@,
        "label"@ != "post_credit_scene_min_frames"@,
        "label"@ != "post_credit_scene_min_span_seconds"@,
        "label"@ != "text_ratio_threshold"@,
        "max_frame_gap_seconds"@ != "min_frame_count"@,
        "max_frame_gap_seconds"@ != "min_span_seconds"@,
        "max_frame_gap_seconds"@ != "min_start_fraction"@,
        "max_frame_gap_seconds"@ != "post_credit_scene_min_frames"@,
        "max_frame_gap_seconds"@ != "post_credit_scene_min_span_seconds"@,
        "max_frame_gap_seconds"@ != "text_ratio_threshold"@,
        "min_frame_count"@ != "min_span_seconds"@,
        "min_frame_count"@ != "min_start_fraction"@,
        "min_frame_count"@ != "post_credit_scene_min_frames"@,
        "min_frame_count"@ != "post_credit_scene_min_span_seconds"@,
        "min_frame_count"@ != "text_ratio_threshold"@,
        "min_span_seconds"@ != "min_start_fraction"@,
        "min_span_seconds"@ != "post_credit_scene_min_frames"@,
        "min_span_seconds"@ != "post_credit_scene_min_span_seconds"@,
        "min_span_seconds"@ != "text_ratio_threshold"@,
        "min_start_fraction"@ != "post_credit_scene_min_frames"@,
        "min_start_fraction"@ != "post_credit_scene_min_span_seconds"@,
        "min_start_fraction"@ != "text_ratio_threshold"@,
        "post_credit_scene_min_frames"@ != "post_credit_scene_min_span_seconds"@,
        "post_credit_scene_min_frames"@ != "text_ratio_threshold"@,
        "post_credit_scene_min_span_seconds"@ != "text_ratio_threshold"@,
{
    reveal_strlit("black_ratio_threshold");
    reveal_strlit("enabled");
    reveal_strlit("frame_hash_max_frames");
    reveal_strlit("frame_hash_step_seconds");
    reveal_strlit("frame_hash_timeout_seconds");
    reveal_strlit("kind");
    reveal_strlit("label");
    reveal_strlit("max_frame_gap_seconds");
    reveal_strlit("min_frame_count");
    reveal_strlit("min_span_seconds");
    reveal_strlit("min_start_fraction");
    reveal_strlit("post_credit_scene_min_frames");
    reveal_strlit("post_credit_scene_min_span_seconds");
    reveal_strlit("text_ratio_threshold");
    assert("black_ratio_threshold"@.len() == 21);
    assert("enabled"@.len() == 7);
    assert("frame_hash_max_frames"@.len() == 21);
    assert("frame_hash_step_seconds"@.len() == 23);
    assert("frame_hash_timeout_seconds"@.len() == 26);
    assert("kind"@.len() == 4);
    assert("label"@.len() == 5);
    assert("max_frame_gap_seconds"@.len() == 21);
    assert("min_frame_count"@.len() == 15);
    assert("min_span_seconds"@.len() == 16);
    assert("min_start_fraction"@.len() == 18);
    assert("post_credit_scene_min_frames"@.len() == 28);
    assert("post_credit_scene_min_span_seconds"@.len() == 34);
    assert("text_ratio_threshold"@.len() == 20);
    assert("black_ratio_threshold"@[0] == 'b');
    assert("frame_hash_max_frames"@[0] == 'f');
    assert("max_frame_gap_seconds"@[0] == 'm');
}

proof fn lemma_audio_names_differ()
    ensures
        "enabled"@ != "fingerprint_timeout_seconds"@,
        "enabled"@ != "kind"@,
        "enabled"@ != "label"@,
        "enabled"@ != "min_repeat_count"@,
        "enabled"@ != "min_season_files"@,
        "enabled"@ != "rate_limit_per_minute"@,
        "fingerprint_timeout_seconds"@ != "kind"@,
        "fingerprint_timeout_seconds"@ != "label"@,
        "fingerprint_timeout_seconds"@ != "min_repeat_count"@,
        "fingerprint_timeout_seconds"@ != "min_season_files"@,
        "fingerprint_timeout_seconds"@ != "rate_limit_per_minute"@,
        "kind"@ != "label"@,
        "kind"@ != "min_repeat_count"@,
        "kind"@ != "min_season_files"@,
        "kind"@ != "rate_limit_per_minute"@,
        "label"@ != "min_repeat_count"@,
        "label"@ != "min_season_files"@,
        "label"@ != "rate_limit_per_minute"@,
        "min_repeat_count"@ != "min_season_files"@,
        "min_repeat_count"@ != "rate_limit_per_minute"@,
        "min_season_files"@ != "rate_limit_per_minute"@,
{
    reveal_strlit("enabled");
    reveal_strlit("fingerprint_timeout_seconds");
    reveal_strlit("kind");
    reveal_strlit("label");
    reveal_strlit("min_repeat_count");
    reveal_strlit("min_season_files");
    reveal_strlit("rate_limit_per_minute");
    assert("enabled"@.len() == 7);
    assert("fingerprint_timeout_seconds"@.len() == 27);
    assert("kind"@.len() == 4);
    assert("label"@.len() == 5);
    assert("min_repeat_count"@.len() == 16);
    assert("min_season_files"@.len() == 16);
    assert("rate_limit_per_minute"@.len() == 21);
    assert("min_repeat_count"@[4] == 'r');
    assert("min_season_files"@[4] == 's');
}

/// A whole number is written without a sign where it is not negative.
pub proof fn whole_numbers_are_written(n: i64)
    ensures
        n >= 0 ==> whole_json(n) == Json::Number(JsonNumber::Unsigned(n as u64)),
        n < 0 ==> whole_json(n) == Json::Number(JsonNumber::Negative(n)),
        json::json_i64(whole_json(n)) == Some(n),
{
}

} // verus!
