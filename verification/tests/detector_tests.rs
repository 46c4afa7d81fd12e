use media_segments::audio::{
    audio_fingerprint_windows_from_value, local_audio_confidence,
    run_local_audio_recurring_detector_for_season, SeasonAudioFingerprintFile,
};
use media_segments::chapters::{
    chapter_segment_type, chapter_title, count_chapter_candidate, ingest_chapter_segments_from_metadata,
    kept_probe_seconds,
};
use media_segments::consts;
use media_segments::context::ProviderMediaContext;
use media_segments::extraction::{
    audio_extraction_arguments, check_wait, fingerprint_row, frame_extraction_arguments,
    probed_seconds, FileProbe, FingerprintMediaFile, LocalFfmpegWaitOutcome,
};
use media_segments::fingerprint::{
    audio_fingerprint_switched_off, check_audio_extraction, finish_audio_fingerprint,
    local_audio_feature_hash, local_audio_fingerprint_plan, local_audio_fingerprint_window_specs,
    local_audio_frames, pcm_window_bytes, plan_audio_fingerprint, zero_crossing_level,
    LocalAudioFingerprintOutputWindow, LocalAudioFrameStats,
};
use media_segments::frames::{
    check_frame_extraction, finish_frame_hash, frame_hash_switched_off,
    local_visual_frame_hash_for_gray_frame, local_visual_frame_hash_plan,
    local_visual_frames_of_range, plan_frame_hash,
};
use media_segments::jobs::{claim_media_segment_job, enqueue_media_segment_job};
use media_segments::json::{JsonNumber, JsonValue};
use media_segments::normalize::is_media_segment_worker_shutdown_interruption;
use media_segments::probe::{
    metadata_has_audio_stream, metadata_has_video_stream, Chapter, MediaMetadata, MediaStream,
};
use media_segments::quantity::Quantity;
use media_segments::runs::{finish_job_run, JobOutcome};
use media_segments::visual::{
    run_local_visual_credits_detector_for_media_file, visual_frame_samples_from_value,
};

fn from_serde(v: &serde_json::Value) -> JsonValue {
    match v {
        serde_json::Value::Null => JsonValue::Null,
        serde_json::Value::Bool(b) => JsonValue::Bool(*b),
        serde_json::Value::Number(n) => {
            if let Some(u) = n.as_u64() {
                JsonValue::Number(JsonNumber::Unsigned(u))
            } else if let Some(i) = n.as_i64() {
                JsonValue::Number(JsonNumber::Negative(i))
            } else {
                let f: f64 = n.as_f64().expect("a number");
                JsonValue::Number(JsonNumber::Fraction((f * 1_000_000.0).round() as i64))
            }
        }
        serde_json::Value::String(s) => JsonValue::Text(s.clone()),
        serde_json::Value::Array(a) => JsonValue::Array(a.iter().map(from_serde).collect()),
        serde_json::Value::Object(o) => {
            JsonValue::Object(o.iter().map(|(k, v)| (k.clone(), from_serde(v))).collect())
        }
    }
}

const NOW: &str = "2026-07-04 18:30:15";

fn js(text: &str) -> JsonValue {
    let value: serde_json::Value = serde_json::from_str(text).expect("valid JSON");
    from_serde(&value)
}

const SECOND: i64 = 1_000_000;

fn movie_context(seconds: i64) -> ProviderMediaContext {
    ProviderMediaContext {
        media_file_id: "file-1".to_string(),
        item_type: "movie".to_string(),
        item_id: "movie-1".to_string(),
        imdb_id: None,
        tmdb_id: None,
        tvdb_id: None,
        anilist_id: None,
        mal_id: None,
        season_number: None,
        episode_number: None,
        absolute_episode_number: None,
        duration: Some(seconds * SECOND),
    }
}

fn visual_settings() -> JsonValue {
    js(r#"{
        "enabled": true,
        "min_frame_count": 3,
        "min_span_seconds": 20.0,
        "min_start_fraction": 0.60,
        "post_credit_scene_min_frames": 2,
        "post_credit_scene_min_span_seconds": 20.0,
        "frame_hash_step_seconds": 30.0,
        "frame_hash_max_frames": 120
    }"#)
}

fn audio_settings() -> JsonValue {
    js(r#"{"enabled": true, "min_repeat_count": 2, "min_season_files": 2}"#)
}

fn season(fingerprints: &[&str]) -> Vec<SeasonAudioFingerprintFile> {
    fingerprints
        .iter()
        .enumerate()
        .map(|(index, text)| SeasonAudioFingerprintFile {
            windows: audio_fingerprint_windows_from_value(
                &format!("file-{index}"),
                &format!("episode-{index}"),
                Some(1_500 * SECOND),
                &js(text),
            ),
        })
        .collect()
}

fn file(scan_state: &str) -> FingerprintMediaFile {
    FingerprintMediaFile {
        id: "file-1".to_string(),
        path: "/media/file-1.mkv".to_string(),
        size_bytes: Some(1_024),
        container: None,
        video_codec: None,
        audio_codec: None,
        duration_seconds: Some(1_500),
        scan_state: scan_state.to_string(),
    }
}

fn probed(seconds: i32, kind: &str) -> MediaMetadata {
    MediaMetadata {
        duration_seconds: Some(seconds),
        container: Some("matroska".to_string()),
        video_codec: None,
        audio_codec: None,
        streams: vec![MediaStream { codec_type: Some(kind.to_string()) }],
        chapters: Vec::new(),
    }
}

fn chapter(id: i64, start: &str, end: &str, title: &str) -> Chapter {
    Chapter {
        id: Some(id),
        start_time: Some(start.to_string()),
        end_time: Some(end.to_string()),
        tags: Some(vec![("title".to_string(), title.to_string())]),
    }
}

#[test]
fn chapter_provider_ingests_and_activates_known_segments() {
    let mut metadata = probed(1_800, "video");
    metadata.chapters = vec![
        chapter(1, "0.0", "90.0", "Intro"),
        chapter(2, "90.0", "1700.0", "Chapter 02"),
        chapter(3, "1700.0", "1800.0", "Credits"),
    ];
    let (mut summary, inputs) = ingest_chapter_segments_from_metadata("file-1", &metadata);
    assert_eq!(summary.chapters_seen, 3);
    assert_eq!(inputs.len(), 2);
    assert_eq!(inputs[0].segment_type, "intro");
    assert_eq!(inputs[0].start, Quantity::Micros(0));
    assert_eq!(inputs[0].end, Quantity::Micros(90 * SECOND));
    assert_eq!(inputs[1].segment_type, "credits");
    assert_eq!(inputs[1].start, Quantity::Micros(1_700 * SECOND));
    for _ in &inputs {
        count_chapter_candidate(&mut summary, "accepted");
    }
    assert_eq!(summary.candidates_submitted, 2);
    assert_eq!(summary.candidates_accepted, 2);
}

#[test]
fn chapter_titles_are_words_of_their_own() {
    assert_eq!(chapter_segment_type("Intro"), Some("intro"));
    assert_eq!(chapter_segment_type("End Credits"), Some("credits"));
    assert_eq!(chapter_segment_type("Introspection"), None);
    assert_eq!(chapter_segment_type("Chapter 02"), None);
    let mut c = chapter(1, "0", "1", "  Opening  ");
    assert_eq!(chapter_title(&c), Some("Opening".to_string()));
    c.tags = None;
    assert_eq!(chapter_title(&c), None);
}

#[test]
fn a_kept_probe_gives_its_duration() {
    assert_eq!(kept_probe_seconds(Some(&js(r#"{"duration_seconds": 1800}"#))), Some(1_800));
    assert_eq!(kept_probe_seconds(None), None);
}

#[test]
fn a_single_late_frame_is_no_run_of_credits() {
    let payload = js(r#"{"frames": [{"time_seconds": 1720.0, "black_ratio": 0.94, "text_ratio": 0.21}]}"#);
    let (summary, inputs) = run_local_visual_credits_detector_for_media_file(
        "file-1",
        Some(&visual_settings()),
        Some(&movie_context(1_800)),
        Some(&payload),
    );
    assert!(inputs.is_empty());
    assert_eq!(summary.reason.as_deref(), Some("no_sustained_credits_run"));
}

#[test]
fn a_visual_detector_that_is_switched_off_submits_nothing() {
    let (summary, inputs) = run_local_visual_credits_detector_for_media_file(
        "file-1",
        Some(&js(r#"{"enabled": false}"#)),
        Some(&movie_context(1_800)),
        None,
    );
    assert_eq!(summary.status, "skipped");
    assert!(inputs.is_empty());
}

#[test]
fn frame_samples_are_sorted_and_checked() {
    let samples = visual_frame_samples_from_value(&js(
        r#"[{"time_seconds": 20, "black_ratio": 0.5, "text_ratio": 0.1},
            {"time_seconds": 10, "black_ratio": 0.5, "text_ratio": 0.1},
            {"black_ratio": 0.5}]"#,
    ));
    assert_eq!(samples.len(), 2);
    assert_eq!(samples[0].time, 10 * SECOND);
    assert_eq!(samples[1].black_ratio, 500_000);
}

#[test]
fn an_ending_that_repeats_is_an_outro() {
    let files = season(&[
        r#"{"windows": [{"start_seconds": 1325.0, "end_seconds": 1390.0, "hash": "corpus-ending-a"}]}"#,
        r#"{"windows": [{"start_seconds": 1330.0, "end_seconds": 1395.0, "hash": "corpus-ending-a"}]}"#,
        r#"{"windows": [{"start_seconds": 1320.0, "end_seconds": 1385.0, "hash": "corpus-ending-a"}]}"#,
    ]);
    let (_, inputs) =
        run_local_audio_recurring_detector_for_season("season-1", Some(&audio_settings()), &files);
    assert_eq!(inputs.len(), 3);
    assert!(inputs.iter().all(|i| i.segment_type == "outro"));
}

#[test]
fn repeated_sound_elsewhere_is_no_segment() {
    let cases = [
        [
            r#"{"windows": [{"start_seconds": 610.0, "end_seconds": 670.0, "hash": "corpus-midroll-a"}]}"#,
            r#"{"windows": [{"start_seconds": 612.0, "end_seconds": 672.0, "hash": "corpus-midroll-a"}]}"#,
            r#"{"windows": [{"start_seconds": 614.0, "end_seconds": 674.0, "hash": "corpus-midroll-a"}]}"#,
        ],
        [
            r#"{"windows": [{"start_seconds": 30.0, "end_seconds": 42.0, "hash": "corpus-short-a"}]}"#,
            r#"{"windows": [{"start_seconds": 31.0, "end_seconds": 43.0, "hash": "corpus-short-a"}]}"#,
            r#"{"windows": [{"start_seconds": 29.0, "end_seconds": 41.0, "hash": "corpus-short-a"}]}"#,
        ],
        [
            r#"{"windows": [{"start_seconds": 20.0, "end_seconds": 260.0, "hash": "corpus-overlong-opening"}]}"#,
            r#"{"windows": [{"start_seconds": 22.0, "end_seconds": 262.0, "hash": "corpus-overlong-opening"}]}"#,
            r#"{"windows": [{"start_seconds": 18.0, "end_seconds": 258.0, "hash": "corpus-overlong-opening"}]}"#,
        ],
    ];
    for case in cases {
        let files = season(&case);
        let (_, inputs) =
            run_local_audio_recurring_detector_for_season("season-1", Some(&audio_settings()), &files);
        assert!(inputs.is_empty());
    }
}

#[test]
fn more_repeats_give_more_confidence() {
    assert!(local_audio_confidence(3, 3) >= local_audio_confidence(2, 3));
    assert!(local_audio_confidence(2, 2) >= consts::LOCAL_AUDIO_DETECTOR_MIN_CONFIDENCE);
}

fn synthetic_pcm(seed: i16, seconds: usize) -> Vec<u8> {
    let sample_rate = consts::LOCAL_AUDIO_FINGERPRINT_SAMPLE_RATE_HZ as usize;
    let mut bytes: Vec<u8> = Vec::with_capacity(seconds * sample_rate * 2);
    for index in 0..seconds * sample_rate {
        let phase = ((index as i32 * i32::from(seed)) % 4096) - 2048;
        let sample = (phase * 8).clamp(i32::from(i16::MIN), i32::from(i16::MAX)) as i16;
        bytes.extend_from_slice(&sample.to_le_bytes());
    }
    bytes
}

fn frame_samples() -> usize {
    consts::LOCAL_AUDIO_FINGERPRINT_SAMPLE_RATE_HZ as usize / 2
}

fn rms(frame: &LocalAudioFrameStats) -> f64 {
    (frame.sum_squares as f64 / frame_samples() as f64).sqrt()
}

fn levels(frames: &Vec<LocalAudioFrameStats>) -> Vec<(u8, u8)> {
    let average = frames.iter().map(rms).sum::<f64>() / frames.len() as f64;
    let average = average.max(1.0);
    frames
        .iter()
        .map(|f| {
            let relative = ((rms(f) / average) * 16.0).round().clamp(0.0, 63.0) as u8;
            let peak = ((f64::from(f.peak) / average) * 8.0).round().clamp(0.0, 63.0) as u8;
            (relative, peak)
        })
        .collect()
}

fn feature_hash(pcm: &Vec<u8>) -> Option<String> {
    let frames = local_audio_frames(pcm)?;
    Some(local_audio_feature_hash(&levels(&frames), &frames))
}

#[test]
fn local_audio_fingerprint_feature_hash_is_stable_and_discriminating() {
    let first = synthetic_pcm(17, 60);
    let same = synthetic_pcm(17, 60);
    let different = synthetic_pcm(29, 60);
    let first_hash = feature_hash(&first).expect("first hash");
    let same_hash = feature_hash(&same).expect("same hash");
    let different_hash = feature_hash(&different).expect("different hash");
    assert_eq!(first_hash, same_hash);
    assert_ne!(first_hash, different_hash);
    assert!(first_hash.starts_with("laf1:"));
    assert_eq!(feature_hash(&synthetic_pcm(17, 20)).is_some(), true);
    assert!(feature_hash(&synthetic_pcm(17, 19)).is_none());
}

#[test]
fn a_feature_hash_is_taken_over_the_levels_of_all_frames() {
    let pcm = synthetic_pcm(17, 20);
    let frames = local_audio_frames(&pcm).expect("frames");
    assert_eq!(frames.len(), 40);
    let levels = levels(&frames);
    let mut bytes: Vec<u8> = Vec::new();
    bytes.extend_from_slice(consts::LOCAL_AUDIO_FINGERPRINT_VERSION.as_bytes());
    bytes.extend_from_slice(&40u32.to_le_bytes());
    for (frame, level) in frames.iter().zip(levels.iter()) {
        bytes.push(level.0);
        bytes.push(zero_crossing_level(frame));
        bytes.push(level.1);
    }
    assert_eq!(
        local_audio_feature_hash(&levels, &frames),
        format!("laf1:{}", blake3::hash(&bytes).to_hex())
    );
}

#[test]
fn samples_of_a_frame_are_measured() {
    let mut pcm: Vec<u8> = Vec::new();
    for index in 0..160_000usize {
        let sample: i16 = if index % 2 == 0 { 100 } else { -200 };
        pcm.extend_from_slice(&sample.to_le_bytes());
    }
    let frames = local_audio_frames(&pcm).expect("frames");
    assert_eq!(frames[0].peak, 200);
    assert_eq!(frames[0].sum_squares, 2_000 * 10_000 + 2_000 * 40_000);
    assert_eq!(frames[0].zero_crossings, 3_999);
    assert_eq!(zero_crossing_level(&frames[0]), 255);
    assert!(local_audio_frames(&vec![0u8; 100]).is_none());
}

#[test]
fn local_audio_fingerprint_plan_is_bounded_to_intro_and_outro_ranges() {
    let plan = local_audio_fingerprint_plan(1_500 * SECOND);
    assert_eq!(plan.len(), 2);
    assert!(plan.iter().all(|range| !range.windows.is_empty()));
    let total_windows = plan.iter().map(|range| range.windows.len()).sum::<usize>();
    assert!(total_windows <= consts::LOCAL_AUDIO_FINGERPRINT_MAX_WINDOWS_PER_FILE);
    assert_eq!(plan[0].start, 0);
    assert!(plan[0].end <= consts::LOCAL_AUDIO_FINGERPRINT_MAX_RANGE_MICROS);
    assert!(plan[1].start >= 1_500 * consts::LATE_WINDOW_FRACTION);
}

#[test]
fn a_short_file_has_no_plan() {
    assert!(local_audio_fingerprint_plan(100 * SECOND).is_empty());
    let specs = local_audio_fingerprint_window_specs(0, 600 * SECOND, 5);
    assert!(specs.len() <= 5);
    assert!(specs.iter().all(|w| 0 <= w.start && w.start < w.end && w.end <= 600 * SECOND));
}

#[test]
fn a_window_of_samples_keeps_within_them() {
    assert_eq!(pcm_window_bytes(32_000, 0, SECOND), Some((0, 16_000)));
    assert_eq!(pcm_window_bytes(32_001, SECOND, 5 * SECOND), Some((16_000, 32_000)));
    assert_eq!(pcm_window_bytes(32_000, SECOND, SECOND), None);
    assert_eq!(pcm_window_bytes(100, SECOND, 2 * SECOND), None);
}

#[test]
fn local_audio_fingerprint_job_skips_missing_file_cleanly() {
    let plan = plan_audio_fingerprint(
        "file-1",
        &file("ok"),
        Some(&FileProbe::Unavailable("No such file or directory".to_string())),
    );
    assert_eq!(plan.summary.media_file_id, "file-1");
    assert_eq!(plan.summary.status, "skipped");
    assert!(plan.summary.reason.as_deref().unwrap_or_default().starts_with("file_unavailable:"));
    assert!(plan.ranges.is_empty());
    assert!(!plan.keeps_probe);
}

#[test]
fn an_audio_fingerprint_is_planned_and_kept() {
    let plan = plan_audio_fingerprint(
        "file-1",
        &file("ok"),
        Some(&FileProbe::Probed(2_048, probed(1_500, "audio"))),
    );
    assert_eq!(plan.ranges.len(), 2);
    assert_eq!(plan.summary.duration_seconds, Some(1_500));
    assert!(check_audio_extraction(0, 2).is_err());
    assert!(check_audio_extraction(3, 1).is_ok());
    let windows = vec![LocalAudioFingerprintOutputWindow {
        start: 30 * SECOND,
        end: 90 * SECOND,
        hash: "laf1:abc".to_string(),
    }];
    let (summary, payload) =
        finish_audio_fingerprint(plan.summary, 1_500, Ok(windows)).expect("finished");
    assert_eq!(summary.windows_fingerprinted, 1);
    let payload = payload.expect("a payload");
    let read = audio_fingerprint_windows_from_value("file-1", "episode-1", Some(1_500 * SECOND), &payload);
    assert_eq!(read.len(), 1);
    assert_eq!(read[0].start, 30 * SECOND);
    assert_eq!(read[0].end, 90 * SECOND);
    assert_eq!(read[0].hash, "laf1:abc");
}

#[test]
fn an_audio_fingerprint_without_sound_is_skipped() {
    let plan = plan_audio_fingerprint(
        "file-1",
        &file("ok"),
        Some(&FileProbe::Probed(2_048, probed(1_500, "video"))),
    );
    assert_eq!(plan.summary.status, "skipped");
    let off = audio_fingerprint_switched_off("file-1", Some(&js(r#"{"enabled": false}"#)));
    assert_eq!(off.expect("a summary").status, "skipped");
    assert!(audio_fingerprint_switched_off("file-1", Some(&audio_settings())).is_none());
}

#[test]
fn local_visual_frame_hash_plan_is_bounded_to_late_range() {
    let plan = local_visual_frame_hash_plan(7_200 * SECOND, None);
    assert_eq!(plan.len(), 1);
    let range = &plan[0];
    assert!(range.start >= 7_200 * consts::LOCAL_VISUAL_CREDITS_MIN_START_FRACTION);
    assert!(range.end <= 7_200 * SECOND);
    assert_eq!(range.step, consts::LOCAL_VISUAL_FRAME_HASH_STEP_MICROS);
    assert!(!range.frames.is_empty());
    assert!(range.frames.len() <= consts::LOCAL_VISUAL_FRAME_HASH_MAX_FRAMES_PER_FILE);
}

#[test]
fn local_visual_frame_hash_gray_frame_detects_dark_text_edges() {
    let width: usize = 16;
    let height: usize = 8;
    let mut frame = vec![0u8; width * height];
    for y in 2..6usize {
        for x in 4..12usize {
            if x == 4 || x == 11 || y == 2 || y == 5 {
                frame[y * width + x] = 255;
            }
        }
    }
    let output = local_visual_frame_hash_for_gray_frame(1_700 * SECOND, &frame, width, height);
    assert_eq!(output.time, 1_700 * SECOND);
    assert!(output.black_ratio > 700_000);
    assert!(output.text_ratio > 50_000);
    assert!(output.hash.starts_with("lvf1:"));
    let darker = local_visual_frame_hash_for_gray_frame(1_700 * SECOND, &vec![0u8; 128], width, height);
    assert_eq!(darker.black_ratio, 1_000_000);
    assert_eq!(darker.text_ratio, 0);
    assert_ne!(darker.hash, output.hash);
}

#[test]
fn local_visual_frame_hash_job_skips_missing_file_cleanly() {
    let plan = plan_frame_hash(
        "file-1",
        Some(&visual_settings()),
        &file("ok"),
        Some(&FileProbe::Unavailable("No such file or directory".to_string())),
    );
    assert_eq!(plan.summary.media_file_id, "file-1");
    assert_eq!(plan.summary.status, "skipped");
    assert!(plan.summary.reason.as_deref().unwrap_or_default().starts_with("file_unavailable:"));
    let job = enqueue_media_segment_job(
        None,
        consts::MEDIA_SEGMENT_JOB_VIDEO_FRAME_HASH,
        consts::MEDIA_SEGMENT_JOB_SCOPE_MEDIA_FILE,
        "file-1",
        consts::PROVIDER_LOCAL_VISUAL_RECURRING,
        10,
        consts::PROVIDER_JOB_MAX_ATTEMPTS,
        NOW,
    );
    assert_eq!(job.status, "queued");
    let claimed = claim_media_segment_job(job, "midm-local-visual-hash-missing-test", true, NOW)
        .expect("a worker")
        .expect("a job");
    let run =
        finish_job_run(&claimed, claimed.clone(), JobOutcome::FrameHash(Ok(plan.summary)), 1_783_189_815);
    assert_eq!(run.job.status, "skipped");
    let off = frame_hash_switched_off("file-1", Some(&js(r#"{"enabled": false}"#)));
    assert_eq!(off.expect("a summary").status, "skipped");
}

#[test]
fn hashed_frames_read_back_as_samples() {
    let plan = plan_frame_hash(
        "file-1",
        Some(&visual_settings()),
        &file("ok"),
        Some(&FileProbe::Probed(2_048, probed(1_800, "video"))),
    );
    assert_eq!(plan.ranges.len(), 1);
    let size = consts::LOCAL_VISUAL_FRAME_HASH_WIDTH * consts::LOCAL_VISUAL_FRAME_HASH_HEIGHT;
    let raw = vec![0u8; 2 * size + 5];
    let frames = local_visual_frames_of_range(&raw, &plan.ranges[0].frames);
    assert_eq!(frames.len(), 2);
    assert!(check_frame_extraction(frames.len(), 0).is_ok());
    assert!(check_frame_extraction(0, 1).is_err());
    let (summary, payload) =
        finish_frame_hash(plan.summary, 1_800, &plan.ranges, Ok(frames)).expect("finished");
    assert_eq!(summary.frames_extracted, 2);
    let samples = visual_frame_samples_from_value(&payload.expect("a payload"));
    assert_eq!(samples.len(), 2);
    assert_eq!(samples[0].black_ratio, 1_000_000);
}

#[test]
fn a_failed_extraction_is_an_error() {
    let plan = plan_audio_fingerprint(
        "file-1",
        &file("ok"),
        Some(&FileProbe::Probed(2_048, probed(1_500, "audio"))),
    );
    let shutdown = check_wait("local audio fingerprint extraction", LocalFfmpegWaitOutcome::Shutdown)
        .expect_err("shut down");
    assert!(is_media_segment_worker_shutdown_interruption(&shutdown.message));
    assert!(finish_audio_fingerprint(plan.summary, 1_500, Err(shutdown.message)).is_err());
}

#[test]
fn local_ffmpeg_wait_kills_child_on_timeout() {
    let late = check_wait("test ffmpeg timeout", LocalFfmpegWaitOutcome::TimedOut).expect_err("timed out");
    assert!(late.message.contains("test ffmpeg timeout timed out"));
    assert!(!is_media_segment_worker_shutdown_interruption(&late.message));
    assert!(check_wait("test", LocalFfmpegWaitOutcome::Completed).is_ok());
    assert!(check_wait("test", LocalFfmpegWaitOutcome::Cancelled).is_err());
}

#[test]
fn the_extracting_program_is_told_the_range() {
    let audio = audio_extraction_arguments("/media/a.mkv", 30 * SECOND, 60 * SECOND);
    assert!(audio.contains(&"30.000".to_string()));
    assert!(audio.contains(&"60.000".to_string()));
    assert!(audio.contains(&"/media/a.mkv".to_string()));
    let frames = frame_extraction_arguments("/media/a.mkv", 0, 60 * SECOND, 30 * SECOND, 7);
    assert!(frames.contains(&"7".to_string()));
}

#[test]
fn a_probe_says_what_a_file_is() {
    let metadata = probed(1_500, "audio");
    assert!(metadata_has_audio_stream(&metadata));
    assert!(!metadata_has_video_stream(&metadata));
    assert_eq!(probed_seconds(&metadata, &file("ok")), Some(1_500));
    assert_eq!(probed_seconds(&probed(0, "audio"), &file("ok")), None);
    let row = fingerprint_row(&file("ok"), &metadata, Some(2_048), Some(1_500));
    assert_eq!(row.container.as_deref(), Some("matroska"));
    assert_eq!(row.file_size_bytes, Some(2_048));
}
