use media_segments::candidate::{
    active_segment_metadata, clamp_unit, deterministic_candidate_id, disable_active_segment,
    media_duration, minimum_segment_duration, normalize_candidate_input, rank_candidates,
    select_active_candidates, select_non_overlapping_candidates, source_label_for_candidate,
    validate_candidate, ActiveWindow, CandidateRow, ResolvedItem, SegmentCandidateInput,
};
use media_segments::consts;
use media_segments::json::{JsonNumber, JsonValue};
use media_segments::normalize::SegmentItemContext;
use media_segments::quantity::Quantity;

fn from_serde(v: &serde_json::Value) -> JsonValue {
    match v {
        serde_json::Value::Null => JsonValue::Null,
        serde_json::Value::Bool(b) => JsonValue::Bool(*b),
        serde_json::Value::Number(n) => {
            if let Some(u) = n.as_u64() {
                JsonValue::Number(JsonNumber::Unsigned(u))
            } else if let Some(i) = n.as_i64() {
                JsonValue::Number(JsonNumber::Negative(i))
            } else {
                let f: f64 = n.as_f64().expect("a number");
                JsonValue::Number(JsonNumber::Fraction((f * 1_000_000.0).round() as i64))
            }
        }
        serde_json::Value::String(s) => JsonValue::Text(s.clone()),
        serde_json::Value::Array(a) => JsonValue::Array(a.iter().map(from_serde).collect()),
        serde_json::Value::Object(o) => {
            JsonValue::Object(o.iter().map(|(k, v)| (k.clone(), from_serde(v))).collect())
        }
    }
}

fn js(text: &str) -> JsonValue {
    let value: serde_json::Value = serde_json::from_str(text).expect("valid JSON");
    from_serde(&value)
}

fn to_serde(v: &JsonValue) -> serde_json::Value {
    match v {
        JsonValue::Null => serde_json::Value::Null,
        JsonValue::Bool(b) => serde_json::Value::Bool(*b),
        JsonValue::Number(JsonNumber::Unsigned(n)) => serde_json::Value::from(*n),
        JsonValue::Number(JsonNumber::Negative(n)) => serde_json::Value::from(*n),
        JsonValue::Number(JsonNumber::Fraction(n)) => serde_json::Value::from(*n as f64 / 1_000_000.0),
        JsonValue::Text(s) => serde_json::Value::from(s.as_str()),
        JsonValue::Array(a) => serde_json::Value::Array(a.iter().map(to_serde).collect()),
        JsonValue::Object(o) => {
            serde_json::Value::Object(o.iter().map(|(k, v)| (k.clone(), to_serde(v))).collect())
        }
    }
}

fn parsed(text: &str) -> serde_json::Value {
    serde_json::from_str(text).expect("valid JSON")
}

const SECOND: i64 = 1_000_000;

fn input(provider_kind: &str, start: i64, end: i64, confidence: i64, title: &str) -> SegmentCandidateInput {
    SegmentCandidateInput {
        media_file_id: "file-1".to_string(),
        item_type: Some("movie".to_string()),
        item_id: Some("movie-1".to_string()),
        segment_type: "intro".to_string(),
        start: Quantity::Micros(start * SECOND),
        end: Quantity::Micros(end * SECOND),
        provider_kind: provider_kind.to_string(),
        provider_id: consts::CHAPTER_PROVIDER_ID.to_string(),
        provider_version: Some("1".to_string()),
        confidence: Quantity::Micros(confidence),
        identity_strength: "file_fingerprint".to_string(),
        source_payload: Some(JsonValue::Object(vec![(
            "title".to_string(),
            JsonValue::Text(title.to_string()),
        )])),
    }
}

fn movie() -> ResolvedItem {
    ResolvedItem::Item(SegmentItemContext {
        item_type: "movie".to_string(),
        item_id: "movie-1".to_string(),
    })
}

fn row(input: SegmentCandidateInput) -> CandidateRow {
    normalize_candidate_input(input, true, &movie()).expect("a candidate")
}

#[test]
fn invalid_candidate_is_preserved_but_not_activated() {
    let candidate = row(input(consts::PROVIDER_CHAPTER, 5, 10, 900_000, "Intro"));
    let validation = validate_candidate(&candidate, Some(1_800 * SECOND));
    assert_eq!(validation.state, "rejected");
    assert_eq!(validation.reason.as_deref(), Some("segment_too_short"));
    assert!(!validation.auto_activate);
    assert_eq!(minimum_segment_duration("intro"), 20 * SECOND);
}

#[test]
fn imported_candidate_supersedes_overlapping_provider_segment_without_locking() {
    let chapter = row(input(consts::PROVIDER_CHAPTER, 0, 90, 850_000, "Intro"));
    let imported = row(input("imported", 2, 95, 1_000_000, "Imported intro"));
    assert_eq!(validate_candidate(&chapter, Some(1_800 * SECOND)).state, "accepted");
    assert_eq!(validate_candidate(&imported, Some(1_800 * SECOND)).state, "accepted");
    assert_eq!(source_label_for_candidate(&imported), "Imported intro");
    let locked: Vec<ActiveWindow> = Vec::new();
    let active = select_active_candidates(vec![chapter, imported], &locked);
    assert_eq!(active.len(), 1);
    assert_eq!(active[0].provider_kind, "imported");
}

#[test]
fn manual_segment_candidate_is_rejected_by_core_service() {
    let error = normalize_candidate_input(
        input("manual", 2, 95, 1_000_000, "Manual intro"),
        true,
        &movie(),
    )
    .expect_err("manual candidates are refused");
    assert!(error.message.contains("manual media segment candidates are not supported"));
}

#[test]
fn candidates_of_missing_files_are_refused() {
    assert!(
        normalize_candidate_input(
            input(consts::PROVIDER_CHAPTER, 0, 90, 900_000, "Intro"),
            false,
            &movie(),
        )
        .is_err()
    );
}

#[test]
fn a_candidate_beyond_the_file_is_rejected() {
    let candidate = row(input(consts::PROVIDER_THEINTRODB, 20, 1_850, 990_000, "Intro"));
    let validation = validate_candidate(&candidate, Some(1_800 * SECOND));
    assert_eq!(validation.state, "rejected");
    assert_eq!(validation.reason.as_deref(), Some("outside_media_duration"));
}

#[test]
fn times_that_are_not_finite_are_rejected() {
    let mut bad = input(consts::PROVIDER_CHAPTER, 0, 90, 900_000, "Intro");
    bad.end = Quantity::Infinite;
    let validation = validate_candidate(&row(bad), Some(1_800 * SECOND));
    assert_eq!(validation.state, "rejected");
}

#[test]
fn an_early_segment_may_not_start_late() {
    let candidate = row(input(consts::PROVIDER_CHAPTER, 1_500, 1_600, 900_000, "Intro"));
    assert_eq!(validate_candidate(&candidate, Some(1_800 * SECOND)).state, "rejected");
}

#[test]
fn the_highest_ranking_candidate_comes_first() {
    let low = row(input(consts::PROVIDER_CHAPTER, 0, 90, 800_000, "Intro"));
    let high = row(input(consts::PROVIDER_CHAPTER, 0, 90, 950_000, "Intro"));
    let ranked = rank_candidates(vec![low, high]);
    assert_eq!(ranked[0].confidence, 950_000);
    assert_eq!(ranked[1].confidence, 800_000);
}

#[test]
fn chosen_candidates_share_no_time_and_spare_locked_windows() {
    let a = row(input(consts::PROVIDER_CHAPTER, 0, 90, 900_000, "Intro"));
    let b = row(input(consts::PROVIDER_CHAPTER, 60, 150, 850_000, "Intro"));
    let c = row(input(consts::PROVIDER_CHAPTER, 200, 260, 850_000, "Intro"));
    let locked = vec![ActiveWindow { start_micros: 190 * SECOND, end_micros: 300 * SECOND }];
    let chosen = select_non_overlapping_candidates(rank_candidates(vec![a, b, c]), &locked);
    assert_eq!(chosen.len(), 1);
    assert_eq!(chosen[0].start, Quantity::Micros(0));
}

#[test]
fn candidate_ids_depend_on_every_part_of_the_key() {
    let id = |provider: &str, payload: &str| {
        let payload = js(payload);
        deterministic_candidate_id(
            "file-1",
            "movie",
            "movie-1",
            "intro",
            &Quantity::Micros(0),
            &Quantity::Micros(90 * SECOND),
            provider,
            "ffprobe_chapters",
            Some(&payload),
        )
    };
    assert_eq!(id("chapter", "{}"), id("chapter", r#"{"title": "Intro"}"#));
    assert_ne!(id("chapter", "{}"), id("imported", "{}"));
    assert_ne!(id("chapter", r#"{"id": 1}"#), id("chapter", r#"{"id": 2}"#));
    assert_eq!(
        id("chapter", r#"{"id": 2, "chapter_id": 1}"#),
        id("chapter", r#"{"chapter_id": 1}"#)
    );
    assert_eq!(
        id("chapter", r#"{"id": "a\"b"}"#),
        uuid::Uuid::new_v5(
            &uuid::Uuid::NAMESPACE_OID,
            b"file-1|movie|movie-1|intro|0.000|90.000|chapter|ffprobe_chapters|\"a\\\"b\"",
        )
        .to_string()
    );
}

#[test]
fn confidences_are_kept_between_zero_and_one() {
    assert_eq!(clamp_unit(-5), 0);
    assert_eq!(clamp_unit(1_500_000), 1_000_000);
    assert_eq!(clamp_unit(420_000), 420_000);
}

#[test]
fn an_active_segment_keeps_where_it_came_from() {
    let kept = active_segment_metadata(&row(input(consts::PROVIDER_CHAPTER, 0, 90, 900_000, "Intro")));
    assert_eq!(
        to_serde(&kept),
        parsed(
            r#"{"identity_strength": "file_fingerprint", "provider_id": "ffprobe_chapters",
                "provider_kind": "chapter", "provider_version": "1",
                "source_payload": {"title": "Intro"}}"#
        )
    );
}

#[test]
fn a_segment_that_is_switched_off_says_why() {
    let off = disable_active_segment(Some("  wrong marker "), &Some(js(r#"{"title": "Intro"}"#)));
    assert_eq!(off.status, "disabled");
    assert_eq!(off.candidate_state, "rejected");
    assert_eq!(off.candidate_reason, "wrong marker");
    assert_eq!(
        to_serde(&off.metadata),
        parsed(r#"{"disabled_reason": "wrong marker", "previous_metadata": {"title": "Intro"}}"#)
    );
    assert_eq!(disable_active_segment(Some("  "), &None).candidate_reason, "disabled_by_user");
    assert_eq!(
        to_serde(&disable_active_segment(None, &None).metadata),
        parsed(r#"{"disabled_reason": "disabled_by_user", "previous_metadata": null}"#)
    );
}

#[test]
fn the_length_of_a_file_has_three_sources() {
    assert_eq!(media_duration(Some(1_800), Some(5), Some(7)), Some(1_800 * SECOND));
    assert_eq!(media_duration(None, Some(5 * SECOND), Some(7)), Some(5 * SECOND));
    assert_eq!(media_duration(Some(0), None, Some(7)), Some(7 * SECOND));
    assert_eq!(media_duration(None, None, None), None);
}
