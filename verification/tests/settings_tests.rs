use media_segments::consts;
use media_segments::json::{JsonNumber, JsonValue};
use media_segments::library::{
    library_patch_entries,
    effective_segment_provider_settings, library_provider_settings_map,
    provider_settings_for_first_enabled_file, update_library_provider_setting, LibraryProviderRow,
    MediaInteractionLibrarySettingsPatch,
};
use media_segments::preferences::{
    apply_preferences_patch, default_playback_preferences, playback_preferences_from_stored,
    validate_countdown_seconds, validate_max_consecutive, validate_max_elapsed_minutes,
    validate_skip_behavior, PlaybackInteractionPreferencesPatch, StoredPreferences,
};
use media_segments::settings::{
    default_segment_provider_settings, local_audio_min_repeat_count, local_audio_min_season_files,
    local_visual_black_ratio_threshold, local_visual_frame_hash_max_frames,
    local_visual_frame_hash_step_micros, local_visual_frame_hash_timeout_seconds,
    local_visual_max_frame_gap_micros, local_visual_min_frame_count, local_visual_min_span_micros,
    local_visual_min_start_fraction, local_visual_post_credit_scene_min_frames,
    local_visual_post_credit_scene_min_span_micros, local_visual_text_ratio_threshold,
    marketplace_provider_settings_enabled, merge_provider_setting_entry,
    merge_segment_provider_settings, provider_base_url,
    provider_cache_ttl_seconds, provider_rate_limit_per_minute, provider_settings_enabled,
    provider_settings_for, provider_timeout_millis,
};
use media_segments::writing::json_text;

fn from_serde(v: &serde_json::Value) -> JsonValue {
    match v {
        serde_json::Value::Null => JsonValue::Null,
        serde_json::Value::Bool(b) => JsonValue::Bool(*b),
        serde_json::Value::Number(n) => {
            if let Some(u) = n.as_u64() {
                JsonValue::Number(JsonNumber::Unsigned(u))
            } else if let Some(i) = n.as_i64() {
                JsonValue::Number(JsonNumber::Negative(i))
            } else {
                let f: f64 = n.as_f64().expect("a number");
                JsonValue::Number(JsonNumber::Fraction((f * 1_000_000.0).round() as i64))
            }
        }
        serde_json::Value::String(s) => JsonValue::Text(s.clone()),
        serde_json::Value::Array(a) => JsonValue::Array(a.iter().map(from_serde).collect()),
        serde_json::Value::Object(o) => {
            JsonValue::Object(o.iter().map(|(k, v)| (k.clone(), from_serde(v))).collect())
        }
    }
}

fn js(text: &str) -> JsonValue {
    let value: serde_json::Value = serde_json::from_str(text).expect("valid JSON");
    from_serde(&value)
}

fn to_serde(v: &JsonValue) -> serde_json::Value {
    match v {
        JsonValue::Null => serde_json::Value::Null,
        JsonValue::Bool(b) => serde_json::Value::Bool(*b),
        JsonValue::Number(JsonNumber::Unsigned(n)) => serde_json::Value::from(*n),
        JsonValue::Number(JsonNumber::Negative(n)) => serde_json::Value::from(*n),
        JsonValue::Number(JsonNumber::Fraction(n)) => serde_json::Value::from(*n as f64 / 1_000_000.0),
        JsonValue::Text(s) => serde_json::Value::from(s.as_str()),
        JsonValue::Array(a) => serde_json::Value::Array(a.iter().map(to_serde).collect()),
        JsonValue::Object(o) => {
            serde_json::Value::Object(o.iter().map(|(k, v)| (k.clone(), to_serde(v))).collect())
        }
    }
}

fn parsed(text: &str) -> serde_json::Value {
    serde_json::from_str(text).expect("valid JSON")
}

fn under(v: &JsonValue, a: &str, b: &str) -> serde_json::Value {
    to_serde(v.get(a).expect("provider").get(b).expect("setting"))
}

#[test]
fn default_provider_settings_include_canonical_detector_tuning_defaults() {
    let settings = default_segment_provider_settings();
    assert_eq!(
        under(&settings, "local_audio_recurring", "min_repeat_count"),
        serde_json::Value::from(consts::LOCAL_AUDIO_DETECTOR_MIN_REPEAT_COUNT)
    );
    assert_eq!(
        under(&settings, "local_audio_recurring", "min_season_files"),
        serde_json::Value::from(consts::LOCAL_AUDIO_DETECTOR_MIN_SEASON_FILES)
    );
    assert_eq!(
        under(&settings, "local_audio_recurring", "fingerprint_timeout_seconds"),
        serde_json::Value::from(consts::LOCAL_AUDIO_FINGERPRINT_TIMEOUT_SECONDS)
    );
    assert_eq!(
        under(&settings, "local_visual_recurring", "min_frame_count"),
        serde_json::Value::from(consts::LOCAL_VISUAL_CREDITS_MIN_FRAME_COUNT)
    );
    assert_eq!(
        under(&settings, "local_visual_recurring", "min_span_seconds"),
        serde_json::Value::from(20.0)
    );
    assert_eq!(
        under(&settings, "local_visual_recurring", "min_start_fraction"),
        serde_json::Value::from(0.6)
    );
    assert_eq!(
        under(&settings, "local_visual_recurring", "frame_hash_step_seconds"),
        serde_json::Value::from(30.0)
    );
    assert_eq!(
        under(&settings, "local_visual_recurring", "frame_hash_max_frames"),
        serde_json::Value::from(consts::LOCAL_VISUAL_FRAME_HASH_MAX_FRAMES_PER_FILE)
    );
    assert_eq!(consts::LOCAL_AUDIO_DETECTOR_MIN_REPEAT_COUNT, 2);
    assert_eq!(consts::LOCAL_VISUAL_FRAME_HASH_MAX_FRAMES_PER_FILE, 120);
}

#[test]
fn provider_settings_normalize_desktop_detector_tuning_payload() {
    let merged = merge_segment_provider_settings(
        &default_segment_provider_settings(),
        &js(r#"{
            "local_audio_recurring": {
                "enabled": true,
                "minRepeatCount": 4,
                "minSeasonFiles": 7,
                "fingerprintTimeoutSeconds": 240
            },
            "local_visual_recurring": {
                "enabled": true,
                "minFrameCount": 5,
                "minSpanSeconds": 45.5,
                "minStartFraction": 0.75,
                "maxFrameGapSeconds": 120.0,
                "postCreditSceneMinFrames": 3,
                "postCreditSceneMinSpanSeconds": 30.0,
                "blackRatioThreshold": 0.8,
                "textRatioThreshold": 0.12,
                "frameHashTimeoutSeconds": 360,
                "frameHashStepSeconds": 20.0,
                "frameHashMaxFrames": 180
            }
        }"#),
    )
    .expect("valid settings");

    let audio = provider_settings_for(&merged, consts::PROVIDER_LOCAL_AUDIO_RECURRING)
        .expect("normalized local audio settings");
    assert!(provider_settings_enabled(Some(&audio)));
    assert_eq!(local_audio_min_repeat_count(Some(&audio)), 4);
    assert_eq!(local_audio_min_season_files(Some(&audio)), 7);
    assert_eq!(
        to_serde(audio.get("fingerprint_timeout_seconds").expect("timeout")),
        serde_json::Value::from(240)
    );
    assert!(audio.get("minRepeatCount").is_none());
    assert!(audio.get("minSeasonFiles").is_none());

    let visual = provider_settings_for(&merged, consts::PROVIDER_LOCAL_VISUAL_RECURRING)
        .expect("normalized local visual settings");
    assert!(provider_settings_enabled(Some(&visual)));
    assert_eq!(local_visual_min_frame_count(Some(&visual)), 5);
    assert_eq!(local_visual_min_span_micros(Some(&visual)), 45_500_000);
    assert_eq!(local_visual_min_start_fraction(Some(&visual)), 750_000);
    assert_eq!(local_visual_max_frame_gap_micros(Some(&visual)), 120_000_000);
    assert_eq!(local_visual_post_credit_scene_min_frames(Some(&visual)), 3);
    assert_eq!(local_visual_post_credit_scene_min_span_micros(Some(&visual)), 30_000_000);
    assert_eq!(local_visual_black_ratio_threshold(Some(&visual)), 800_000);
    assert_eq!(local_visual_text_ratio_threshold(Some(&visual)), 120_000);
    assert_eq!(local_visual_frame_hash_timeout_seconds(Some(&visual)), 360);
    assert_eq!(local_visual_frame_hash_step_micros(Some(&visual)), 20_000_000);
    assert_eq!(local_visual_frame_hash_max_frames(Some(&visual)), 180);
    assert!(visual.get("minFrameCount").is_none());
    assert!(visual.get("frameHashMaxFrames").is_none());
}

#[test]
fn provider_settings_reject_out_of_range_detector_tuning() {
    let cases = [
        r#"{"local_audio_recurring": {"minRepeatCount": 1}}"#,
        r#"{"local_audio_recurring": {"minSeasonFiles": 51}}"#,
        r#"{"local_audio_recurring": {"fingerprintTimeoutSeconds": 601}}"#,
        r#"{"local_visual_recurring": {"minFrameCount": 1}}"#,
        r#"{"local_visual_recurring": {"minSpanSeconds": 9.9}}"#,
        r#"{"local_visual_recurring": {"minStartFraction": 0.96}}"#,
        r#"{"local_visual_recurring": {"maxFrameGapSeconds": 301.0}}"#,
        r#"{"local_visual_recurring": {"postCreditSceneMinFrames": 21}}"#,
        r#"{"local_visual_recurring": {"postCreditSceneMinSpanSeconds": 4.9}}"#,
        r#"{"local_visual_recurring": {"blackRatioThreshold": 0.09}}"#,
        r#"{"local_visual_recurring": {"textRatioThreshold": 0.009}}"#,
        r#"{"local_visual_recurring": {"frameHashTimeoutSeconds": 901}}"#,
        r#"{"local_visual_recurring": {"frameHashStepSeconds": 4.9}}"#,
        r#"{"local_visual_recurring": {"frameHashMaxFrames": 501}}"#,
    ];
    for patch in cases {
        assert!(
            merge_segment_provider_settings(&default_segment_provider_settings(), &js(patch)).is_err(),
            "accepted {patch}"
        );
    }
}

#[test]
fn theintrodb_default_base_url_targets_public_api_host() {
    assert_eq!(consts::DEFAULT_THEINTRODB_BASE_URL, "https://api.introdb.app");
}

#[test]
fn merging_leaves_providers_that_are_not_named_as_they_were() {
    let base = default_segment_provider_settings();
    let merged = merge_segment_provider_settings(&base, &js(r#"{"aniskip": false}"#)).expect("merged");
    assert_eq!(
        to_serde(merged.get("theintrodb").expect("theintrodb")),
        to_serde(base.get("theintrodb").expect("theintrodb"))
    );
    assert!(!provider_settings_enabled(merged.get("aniskip")));
}

#[test]
fn an_unknown_provider_gets_an_entry_of_its_own() {
    let merged = merge_segment_provider_settings(
        &default_segment_provider_settings(),
        &js(r#"{"Community-Markers": {"enabled": true, "label": "Community Markers"}}"#),
    )
    .expect("merged");
    let entry = merged.get("community_markers").expect("entry");
    assert!(provider_settings_enabled(Some(entry)));
    assert_eq!(entry.get("label").and_then(|l| l.as_text()).map(|s| s.as_str()), Some("Community Markers"));
}

#[test]
fn settings_that_are_no_object_are_refused() {
    assert!(merge_segment_provider_settings(&default_segment_provider_settings(), &js("[1]")).is_err());
    assert!(
        merge_segment_provider_settings(&default_segment_provider_settings(), &js(r#"{"bad id!": true}"#))
            .is_err()
    );
}

#[test]
fn values_that_are_missing_fall_back_to_their_defaults() {
    assert_eq!(local_audio_min_repeat_count(None), 2);
    assert_eq!(local_visual_min_span_micros(None), 20_000_000);
    assert_eq!(provider_cache_ttl_seconds(None), 86_400);
    assert_eq!(provider_rate_limit_per_minute(None), 30);
    assert_eq!(provider_timeout_millis(None), 8_000);
    assert!(!provider_settings_enabled(None));
    assert!(marketplace_provider_settings_enabled(None));
}

#[test]
fn a_base_address_is_trimmed_or_refused() {
    let given = js(r#"{"base_url": " https://example.test/api/ "}"#);
    assert_eq!(
        provider_base_url(Some(&given), "https://fallback.test").expect("address"),
        "https://example.test/api/"
    );
    assert_eq!(provider_base_url(None, "https://fallback.test").expect("address"), "https://fallback.test");
    let bad = js(r#"{"base_url": "ftp://example.test"}"#);
    assert!(provider_base_url(Some(&bad), "https://fallback.test").is_err());
}

#[test]
fn default_preferences_pass_their_own_validation() {
    let p = default_playback_preferences();
    assert!(validate_skip_behavior(&p.skip_intro_behavior).is_ok());
    assert!(validate_skip_behavior(&p.skip_credits_behavior).is_ok());
    assert!(validate_countdown_seconds(p.autoplay_countdown_seconds).is_ok());
    assert!(validate_max_consecutive(p.autoplay_max_consecutive).is_ok());
    assert!(validate_max_elapsed_minutes(p.autoplay_max_elapsed_minutes).is_ok());
}

#[test]
fn preferences_out_of_range_are_refused() {
    assert!(validate_skip_behavior("whatever").is_err());
    assert!(validate_countdown_seconds(-1).is_err());
    assert!(validate_max_consecutive(-1).is_err());
    assert!(validate_max_elapsed_minutes(-1).is_err());
}

#[test]
fn an_empty_patch_changes_no_preference() {
    let before = default_playback_preferences();
    let after = apply_preferences_patch(
        default_playback_preferences(),
        PlaybackInteractionPreferencesPatch::default(),
    )
    .expect("patched");
    assert_eq!(after.skip_intro_behavior, before.skip_intro_behavior);
    assert_eq!(after.autoplay_countdown_seconds, before.autoplay_countdown_seconds);
    assert_eq!(
        to_serde(&after.segment_provider_settings),
        to_serde(&before.segment_provider_settings)
    );
}

#[test]
fn a_patch_changes_only_what_it_names() {
    let patch = PlaybackInteractionPreferencesPatch {
        autoplay_enabled: Some(false),
        segment_provider_settings: Some(js(r#"{"theintrodb": false}"#)),
        ..PlaybackInteractionPreferencesPatch::default()
    };
    let after = apply_preferences_patch(default_playback_preferences(), patch).expect("patched");
    assert!(!after.autoplay_enabled);
    assert!(!provider_settings_enabled(after.segment_provider_settings.get("theintrodb")));
    assert_eq!(after.skip_intro_behavior, default_playback_preferences().skip_intro_behavior);
}

#[test]
fn stored_preferences_without_values_are_the_defaults() {
    let stored = StoredPreferences {
        skip_intro_behavior: None,
        skip_recap_behavior: None,
        skip_preview_behavior: None,
        skip_credits_behavior: None,
        skip_outro_behavior: None,
        autoplay_enabled: true,
        autoplay_countdown_seconds: None,
        autoplay_max_consecutive: None,
        autoplay_max_elapsed_minutes: None,
        segment_provider_settings: None,
    };
    let p = playback_preferences_from_stored(stored);
    let d = default_playback_preferences();
    assert_eq!(p.skip_intro_behavior, d.skip_intro_behavior);
    assert_eq!(p.autoplay_max_consecutive, d.autoplay_max_consecutive);
    assert_eq!(to_serde(&p.segment_provider_settings), to_serde(&d.segment_provider_settings));
}

#[test]
fn library_settings_override_those_of_the_user() {
    let rows = vec![LibraryProviderRow {
        provider_kind: "theintrodb".to_string(),
        enabled: false,
        settings: Some(js(r#"{"enabled": true}"#)),
        created_at: Some("2026-01-01 00:00:00".to_string()),
        updated_at: None,
    }];
    let library = library_provider_settings_map(&rows).expect("library settings");
    assert!(!provider_settings_enabled(library.settings.get("theintrodb")));
    let effective = effective_segment_provider_settings(
        &default_segment_provider_settings(),
        Some(&library.settings),
    )
    .expect("effective settings");
    assert!(!provider_settings_enabled(effective.get("theintrodb")));
    let kept = effective_segment_provider_settings(&default_segment_provider_settings(), None)
        .expect("effective settings");
    assert_eq!(to_serde(&kept), to_serde(&default_segment_provider_settings()));
}

#[test]
fn a_library_setting_is_kept_under_its_normal_name() {
    let update = update_library_provider_setting(None, "Local-Audio-Recurring", &js(r#"{"enabled": true}"#))
        .expect("update");
    assert_eq!(update.provider_id, "local_audio_recurring");
    assert!(update.enabled);
}

#[test]
fn the_first_file_that_is_switched_on_decides_for_its_season() {
    let files = vec![
        Some(js(r#"{"enabled": false, "min_repeat_count": 3}"#)),
        Some(js(r#"{"enabled": true, "min_repeat_count": 5}"#)),
    ];
    let chosen = provider_settings_for_first_enabled_file(&files).expect("settings");
    assert_eq!(local_audio_min_repeat_count(Some(&chosen)), 5);
}

#[test]
fn default_settings_are_written_as_expected() {
    let settings = default_segment_provider_settings();
    assert_eq!(
        to_serde(settings.get("theintrodb").expect("theintrodb").get("enabled").expect("enabled")),
        parsed("true")
    );
}

#[test]
fn library_patches_are_objects_or_nothing() {
    let patch = |value: Option<&str>| MediaInteractionLibrarySettingsPatch {
        segment_provider_settings: value.map(js),
    };
    assert!(library_patch_entries(&patch(None)).expect("no change").is_empty());
    let entries = library_patch_entries(&patch(Some(r#"{"aniskip": {"enabled": true}}"#)))
        .expect("changes");
    assert_eq!(entries.len(), 1);
    assert_eq!(entries[0].0, "aniskip");
    assert_eq!(
        library_patch_entries(&patch(Some("[]"))).expect_err("no object").message,
        "segment_provider_settings must be a JSON object"
    );
}

#[test]
fn merging_a_patch_twice_is_merging_it_once() {
    let current = js(r#"{"enabled": false, "label": "Old", "zeta": 1}"#);
    for patch in [
        r#"true"#,
        r#"{"minRepeatCount": 3, "min_repeat_count": 5, "label": " New ", "other": 1}"#,
        r#"{"base_url": " https://a.test ", "enabled": true, "label": "  "}"#,
    ] {
        let once = merge_provider_setting_entry(&current, &js(patch)).expect("settings");
        let twice = merge_provider_setting_entry(&once, &js(patch)).expect("settings");
        assert_eq!(json_text(&once), json_text(&twice));
        assert_ne!(json_text(&once), json_text(&current));
    }
}
