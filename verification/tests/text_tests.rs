use media_segments::normalize::{
    classify_media_segment_provider_certification_error, ensure_terminal_job_status,
    normalize_candidate_segment_filter, normalize_external_id_for_provider, normalize_imdb_id,
    normalize_media_segment_job_status_filter, normalize_numeric_id, normalize_provider_id,
    normalize_segment_provider_media_type, normalize_worker_id, redact_provider_url,
    segment_provider_media_type_matches, selected_builtin_provider_kinds, truncate_for_error,
};
use media_segments::number::{LIMIT_DIGITS, parse_clock_or_seconds, parse_finite, parse_quantity, split};
use media_segments::quantity::{format_seconds, quantity_string, ranges_overlap, round_millis, Quantity};
use media_segments::json::{JsonNumber, JsonValue};
use media_segments::text;
use media_segments::writing::json_text;

#[test]
fn trimming_twice_is_trimming_once() {
    let once = text::trim(" \t two words \u{a0}\n");
    assert_eq!(once, "two words");
    assert_eq!(text::trim(&once), once);
}

#[test]
fn lower_case_covers_only_ascii_letters() {
    assert_eq!(text::to_lower("ABC-Éz"), "abc-Éz");
    assert_eq!(text::to_snake(" Local-Audio "), "local_audio");
    assert_eq!(text::to_snake(&text::to_snake(" Local-Audio ")), "local_audio");
}

#[test]
fn numbers_are_written_in_decimal() {
    assert_eq!(text::u64_text(0), "0");
    assert_eq!(text::u64_text(u64::MAX), "18446744073709551615");
    assert_eq!(text::i64_text(i64::MIN), "-9223372036854775808");
}

#[test]
fn texts_are_ordered_by_their_characters() {
    assert!(text::str_lt("abc", "abd"));
    assert!(text::str_lt("ab", "abc"));
    assert!(!text::str_lt("b", "abc"));
}

#[test]
fn parts_of_texts_are_found() {
    assert!(text::contains_str("themoviedb.com", "moviedb"));
    assert!(!text::contains_str("tmdb", "themoviedb"));
    assert!(text::has_prefix("tt0137523", "tt"));
    assert!(text::has_suffix("host.local", ".local"));
    assert_eq!(text::take_chars("čaj", 2), "ča");
    assert_eq!(text::trim_end_char("https://x.test//", '/'), "https://x.test");
    assert_eq!(text::replace_char("a-b-c", '-', '_'), "a_b_c");
}

#[test]
fn decimal_numbers_are_read_in_millionths() {
    assert_eq!(parse_finite("45.5"), Some(45_500_000));
    assert_eq!(parse_finite("-0.000001"), Some(-1));
    assert_eq!(parse_finite("1e3"), Some(1_000_000_000));
    assert_eq!(parse_finite("inf"), None);
    assert_eq!(parse_finite("ten"), None);
    assert_eq!(parse_quantity("-infinity"), Some(Quantity::NegativeInfinite));
    assert_eq!(parse_quantity("NaN"), Some(Quantity::NotANumber));
}

#[test]
fn times_are_read_as_seconds_or_as_a_clock() {
    assert_eq!(parse_clock_or_seconds("90"), Some(90_000_000));
    assert_eq!(parse_clock_or_seconds("1:30"), Some(90_000_000));
    assert_eq!(parse_clock_or_seconds("01:02:03.5"), Some(3_723_500_000));
    assert_eq!(parse_clock_or_seconds("1:xx"), None);
    assert_eq!(split("a:b::c", ':'), vec!["a", "b", "", "c"]);
}

#[test]
fn seconds_are_written_with_three_digits() {
    assert_eq!(format_seconds(1_660_000_000), "1660.000");
    assert_eq!(quantity_string(&Quantity::Micros(1_500_600)), "1.501");
    assert_eq!(round_millis(round_millis(1_234_567)), round_millis(1_234_567));
}

#[test]
fn overlap_does_not_depend_on_the_order() {
    assert!(ranges_overlap(0, 10, 5, 15));
    assert!(ranges_overlap(5, 15, 0, 10));
    assert!(!ranges_overlap(0, 10, 10, 20));
}

#[test]
fn provider_ids_have_one_normal_form() {
    let id = normalize_provider_id(" Community-Markers ").expect("id");
    assert_eq!(id, "community_markers");
    assert_eq!(normalize_provider_id(&id).expect("id"), id);
    assert_eq!(
        normalize_provider_id("bad id!").expect_err("refused").message,
        "invalid segment provider id"
    );
    assert!(normalize_provider_id("").is_err());
}

#[test]
fn filters_have_one_normal_form() {
    assert_eq!(normalize_media_segment_job_status_filter(" Queued ").expect("status"), "queued");
    assert!(normalize_media_segment_job_status_filter("elsewhere").is_err());
    assert_eq!(normalize_candidate_segment_filter("Intro").expect("type"), "intro");
    assert!(normalize_candidate_segment_filter("chorus").is_err());
    assert!(ensure_terminal_job_status("succeeded").is_ok());
    assert!(ensure_terminal_job_status("running").is_err());
    assert!(normalize_worker_id("   ").is_err());
}

#[test]
fn external_ids_have_one_normal_form() {
    assert_eq!(normalize_imdb_id(" TT0903747 "), Some("tt0903747".to_string()));
    assert_eq!(normalize_imdb_id("903747x"), None);
    assert_eq!(normalize_numeric_id(" 12345 "), Some("12345".to_string()));
    assert_eq!(normalize_numeric_id("12a"), None);
    assert_eq!(
        normalize_external_id_for_provider("imdb", "tt0137523"),
        Some("tt0137523".to_string())
    );
}

#[test]
fn shown_addresses_lose_their_query() {
    let shown = redact_provider_url("https://api.test/segments?imdb=tt1&key=abc");
    assert!(!shown.contains("key=abc"));
    assert!(shown.starts_with("https://api.test/segments"));
}

#[test]
fn media_types_go_by_several_names() {
    assert_eq!(normalize_segment_provider_media_type("Shows"), Some("series"));
    assert_eq!(normalize_segment_provider_media_type("book"), None);
    assert!(segment_provider_media_type_matches("tv", "series"));
    assert!(!segment_provider_media_type_matches("movie", "series"));
}

#[test]
fn built_in_providers_are_selected_by_name() {
    assert_eq!(selected_builtin_provider_kinds(None).expect("all"), vec!["theintrodb", "aniskip"]);
    assert_eq!(selected_builtin_provider_kinds(Some("AniSkip")).expect("one"), vec!["aniskip"]);
    assert!(selected_builtin_provider_kinds(Some("unknown")).is_err());
}

#[test]
fn long_errors_are_cut() {
    assert_eq!(truncate_for_error("short", 10), "short");
    assert_eq!(truncate_for_error("  a much longer text", 6), "a much");
}

#[test]
fn certification_errors_are_classified() {
    let class = classify_media_segment_provider_certification_error;
    assert_eq!(class("media segment provider response exceeds 10 bytes"), "response_too_large");
    assert_eq!(class("Request Timed Out"), "timeout");
    assert_eq!(class("endpoint not reachable"), "network_blocked");
    assert_eq!(class("provider returned 503"), "provider_http_error");
    assert_eq!(class("something else"), "provider_probe_failed");
}

#[test]
fn json_is_written_compactly() {
    let fraction = |n: i64| JsonValue::Number(JsonNumber::Fraction(n));
    let value = JsonValue::Object(vec![
        (
            "a".to_string(),
            JsonValue::Array(vec![JsonValue::Null, JsonValue::Bool(true), JsonValue::Number(JsonNumber::Unsigned(7))]),
        ),
        ("b\u{1}".to_string(), JsonValue::Text("q\"\\\n\u{1f}é".to_string())),
        ("c".to_string(), JsonValue::Number(JsonNumber::Negative(-3))),
        ("d".to_string(), JsonValue::Array(vec![fraction(1_500_000), fraction(-2_000_000), fraction(30)])),
    ]);
    assert_eq!(
        json_text(&value),
        "{\"a\":[null,true,7],\"b\\u0001\":\"q\\\"\\\\\\n\\u001fé\",\"c\":-3,\"d\":[1.5,-2.0,0.00003]}"
    );
}

#[test]
fn small_fractions_are_written_with_an_exponent() {
    let written = |n: i64| json_text(&JsonValue::Number(JsonNumber::Fraction(n)));
    assert_eq!(written(1), "1e-6");
    assert_eq!(written(-9), "-9e-6");
    assert_eq!(written(10), "0.00001");
    for n in [
        0, 1, 5, 9, -1, 10, 11, 99, 100, 1_000, 123_456, 999_999, 1_000_000, -1_500_000,
        86_400_000_000, 123_456_789_012,
    ] {
        let float = n as f64 / 1_000_000.0;
        assert_eq!(written(n), serde_json::Value::from(float).to_string());
    }
}

#[test]
fn numbers_beyond_double_precision_are_infinite() {
    assert_eq!(parse_quantity("1e400"), Some(Quantity::Infinite));
    assert_eq!(parse_quantity("-1E400"), Some(Quantity::NegativeInfinite));
    assert_eq!(parse_quantity("1e308"), Some(Quantity::Micros(i64::MAX)));
    assert_eq!(parse_quantity("0e400"), Some(Quantity::Micros(0)));
    assert_eq!(parse_quantity("0e9999999999"), Some(Quantity::Micros(0)));
    assert_eq!(parse_quantity("1e9999999999"), Some(Quantity::Infinite));
    assert_eq!(parse_finite("1e400"), None);
    assert_eq!(parse_clock_or_seconds("1e400"), None);
    assert_eq!(parse_clock_or_seconds("1e400:30"), None);
    let limit = LIMIT_DIGITS;
    assert_eq!(limit.len(), 309);
    let below = format!("{}1", &limit[..308]);
    for text in [
        limit.to_string(),
        below.clone(),
        format!("{below}.999"),
        format!("00{limit}"),
        format!("{}.{}e308", &limit[..1], &limit[1..]),
        format!("{}.{}e307", &limit[..1], &limit[1..]),
        format!("0.{limit}e309"),
        "1.7976931348623157e308".to_string(),
        "1.7976931348623159e308".to_string(),
        "1.8e308".to_string(),
        "179769313486231580e291".to_string(),
        "0.0001e313".to_string(),
    ] {
        let float: f64 = text.parse().expect("a number");
        assert_eq!(parse_finite(&text).is_some(), float.is_finite(), "{text}");
    }
}
