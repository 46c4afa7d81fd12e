//! The names and limits of the library. Times are in microseconds and ratios in
//! millionths.

use vstd::prelude::*;

verus! {

pub const PROVIDER_CHAPTER: &'static str = "chapter";
pub const CHAPTER_PROVIDER_ID: &'static str = "ffprobe_chapters";
pub const CHAPTER_PROVIDER_VERSION: &'static str = "1";
pub const PROVIDER_THEINTRODB: &'static str = "theintrodb";
pub const PROVIDER_ANISKIP: &'static str = "aniskip";
pub const PROVIDER_LOCAL_AUDIO_RECURRING: &'static str = "local_audio_recurring";
pub const PROVIDER_LOCAL_VISUAL_RECURRING: &'static str = "local_visual_recurring";

pub const DURATION_TOLERANCE_MICROS: i64 = 5_000_000;
/// The part of a file in which an early segment starts, in millionths.
pub const EARLY_WINDOW_FRACTION: i64 = 350_000;
pub const EARLY_WINDOW_MAX_MICROS: i64 = 900_000_000;
/// The part of a file after which a late segment starts, in millionths.
pub const LATE_WINDOW_FRACTION: i64 = 500_000;

pub const MEDIA_SEGMENT_PROVIDER_CAPABILITY: &'static str = "media.segment_provider";
pub const MEDIA_SEGMENT_PROVIDER_SCHEMA_VERSION: &'static str = "elixir.media_segment_provider.v1";
pub const MEDIA_SEGMENT_PROVIDER_LOOKUP_PATH: &'static str = "segment-provider/lookup";
pub const MEDIA_SEGMENT_PROVIDER_RESPONSE_MAX_BYTES: u64 = 262_144;
pub const MEDIA_SEGMENT_PROVIDER_MAX_SEGMENTS: usize = 128;
pub const MEDIA_SEGMENT_PROVIDER_CERTIFICATION_POLICY_VERSION: &'static str =
    "midm-segment-provider-cert-v1";
pub const MEDIA_SEGMENT_PROVIDER_CERTIFICATION_EXPIRES_DAYS: i64 = 30;

pub const MEDIA_SEGMENT_JOB_PROVIDER_REFRESH: &'static str = "provider_refresh";
pub const MEDIA_SEGMENT_JOB_LOCAL_DETECTOR: &'static str = "local_detector";
pub const MEDIA_SEGMENT_JOB_AUDIO_FINGERPRINT: &'static str = "audio_fingerprint";
pub const MEDIA_SEGMENT_JOB_VIDEO_FRAME_HASH: &'static str = "video_frame_hash";
pub const MEDIA_SEGMENT_JOB_SCOPE_MEDIA_FILE: &'static str = "media_file";
pub const MEDIA_SEGMENT_JOB_SCOPE_SEASON: &'static str = "season";

pub const DEFAULT_THEINTRODB_BASE_URL: &'static str = "https://api.introdb.app";
pub const DEFAULT_ANISKIP_BASE_URL: &'static str = "https://api.aniskip.com";
pub const DEFAULT_PROVIDER_TIMEOUT_SECONDS: u64 = 8;
pub const DEFAULT_PROVIDER_CACHE_TTL_SECONDS: i64 = 86_400;
pub const DEFAULT_PROVIDER_RATE_LIMIT_PER_MINUTE: i64 = 30;
pub const PROVIDER_RATE_LIMIT_WINDOW_SECONDS: i64 = 60;
pub const PROVIDER_JOB_MAX_ATTEMPTS: i64 = 5;
pub const PROVIDER_JOB_RETRY_BACKOFF_SECONDS: i64 = 300;

pub const MEDIA_SEGMENT_WORKER_INTERVAL_SECONDS: u64 = 60;
pub const MEDIA_SEGMENT_WORKER_ENQUEUE_BATCH_LIMIT: usize = 50;
pub const MEDIA_SEGMENT_WORKER_RUN_BATCH_LIMIT: usize = 4;
pub const MEDIA_SEGMENT_WORKER_MAX_RUNTIME_SECONDS: u64 = 300;
pub const MEDIA_SEGMENT_STALE_RUNNING_JOB_SECONDS: i64 = 21_600;
pub const MEDIA_SEGMENT_JOB_CANCELLATION_POLL_SECONDS: u64 = 2;

pub const LOCAL_AUDIO_DETECTOR_VERSION: &'static str = "local-audio-recurring-v1";
pub const LOCAL_AUDIO_FINGERPRINT_VERSION: &'static str = "local-audio-fingerprint-v1";
pub const LOCAL_AUDIO_DETECTOR_MIN_REPEAT_COUNT: usize = 2;
pub const LOCAL_AUDIO_DETECTOR_MIN_SEASON_FILES: usize = 2;
pub const LOCAL_AUDIO_DETECTOR_MAX_INTRO_START_MICROS: i64 = 600_000_000;
pub const LOCAL_AUDIO_DETECTOR_MIN_CONFIDENCE: i64 = 820_000;
pub const LOCAL_AUDIO_FINGERPRINT_SAMPLE_RATE_HZ: u32 = 8_000;
pub const LOCAL_AUDIO_FINGERPRINT_FRAME_MICROS: i64 = 500_000;
pub const LOCAL_AUDIO_FINGERPRINT_STEP_MICROS: i64 = 15_000_000;
pub const LOCAL_AUDIO_FINGERPRINT_MAX_RANGE_MICROS: i64 = 900_000_000;
pub const LOCAL_AUDIO_FINGERPRINT_MIN_DURATION_MICROS: i64 = 120_000_000;
pub const LOCAL_AUDIO_FINGERPRINT_MAX_WINDOWS_PER_FILE: usize = 160;
pub const LOCAL_AUDIO_FINGERPRINT_TIMEOUT_SECONDS: u64 = 120;
pub const LOCAL_AUDIO_FINGERPRINT_FFMPEG_STDERR_LIMIT: usize = 2_048;

pub const LOCAL_VISUAL_DETECTOR_VERSION: &'static str = "local-visual-credits-v1";
pub const LOCAL_VISUAL_CREDITS_MIN_FRAME_COUNT: usize = 3;
pub const LOCAL_VISUAL_CREDITS_MIN_SPAN_MICROS: i64 = 20_000_000;
pub const LOCAL_VISUAL_CREDITS_MIN_DURATION_MICROS: i64 = 300_000_000;
pub const LOCAL_VISUAL_CREDITS_MIN_START_FRACTION: i64 = 600_000;
pub const LOCAL_VISUAL_CREDITS_MAX_FRAME_GAP_MICROS: i64 = 90_000_000;
pub const LOCAL_VISUAL_POST_CREDIT_SCENE_MIN_FRAMES: usize = 2;
pub const LOCAL_VISUAL_POST_CREDIT_SCENE_MIN_SPAN_MICROS: i64 = 20_000_000;
pub const LOCAL_VISUAL_CREDITS_BLACK_RATIO_THRESHOLD: i64 = 700_000;
pub const LOCAL_VISUAL_CREDITS_TEXT_RATIO_THRESHOLD: i64 = 80_000;
pub const LOCAL_VISUAL_CREDITS_MIN_CONFIDENCE: i64 = 820_000;
pub const LOCAL_VISUAL_FRAME_HASH_VERSION: &'static str = "local-visual-frame-hash-v1";
pub const LOCAL_VISUAL_FRAME_HASH_WIDTH: usize = 160;
pub const LOCAL_VISUAL_FRAME_HASH_HEIGHT: usize = 90;
pub const LOCAL_VISUAL_FRAME_HASH_STEP_MICROS: i64 = 30_000_000;
pub const LOCAL_VISUAL_FRAME_HASH_MAX_RANGE_MICROS: i64 = 3_600_000_000;
pub const LOCAL_VISUAL_FRAME_HASH_MAX_FRAMES_PER_FILE: usize = 120;
pub const LOCAL_VISUAL_FRAME_HASH_TIMEOUT_SECONDS: u64 = 180;
pub const LOCAL_VISUAL_FRAME_HASH_FFMPEG_STDERR_LIMIT: usize = 2_048;
pub const LOCAL_VISUAL_FRAME_BLACK_LUMA_THRESHOLD: u8 = 48;
pub const LOCAL_VISUAL_FRAME_EDGE_LUMA_DELTA_THRESHOLD: u8 = 40;

/// For how many seconds a token of the TVDB service is used.
pub const TVDB_TOKEN_TTL_SECONDS: u64 = 43_200;

/// The names of the built-in sources, and the limits that hold where no settings say
/// otherwise: times in seconds or microseconds, ratios in millionths.
pub proof fn names_and_limits()
    ensures
        PROVIDER_CHAPTER@ == "chapter"@,
        PROVIDER_THEINTRODB@ == "theintrodb"@,
        PROVIDER_ANISKIP@ == "aniskip"@,
        PROVIDER_LOCAL_AUDIO_RECURRING@ == "local_audio_recurring"@,
        PROVIDER_LOCAL_VISUAL_RECURRING@ == "local_visual_recurring"@,
        MEDIA_SEGMENT_PROVIDER_CAPABILITY@ == "media.segment_provider"@,
        MEDIA_SEGMENT_PROVIDER_SCHEMA_VERSION@ == "elixir.media_segment_provider.v1"@,
        MEDIA_SEGMENT_PROVIDER_LOOKUP_PATH@ == "segment-provider/lookup"@,
        LOCAL_AUDIO_FINGERPRINT_VERSION@ == "local-audio-fingerprint-v1"@,
        LOCAL_AUDIO_DETECTOR_VERSION@ == "local-audio-recurring-v1"@,
        LOCAL_VISUAL_DETECTOR_VERSION@ == "local-visual-credits-v1"@,
        LOCAL_VISUAL_FRAME_HASH_VERSION@ == "local-visual-frame-hash-v1"@,
        MEDIA_SEGMENT_PROVIDER_RESPONSE_MAX_BYTES == 262_144,
        MEDIA_SEGMENT_PROVIDER_MAX_SEGMENTS == 128,
        PROVIDER_JOB_MAX_ATTEMPTS == 5,
        PROVIDER_JOB_RETRY_BACKOFF_SECONDS == 300,
        MEDIA_SEGMENT_WORKER_INTERVAL_SECONDS == 60,
        MEDIA_SEGMENT_WORKER_ENQUEUE_BATCH_LIMIT == 50,
        MEDIA_SEGMENT_WORKER_RUN_BATCH_LIMIT == 4,
        MEDIA_SEGMENT_WORKER_MAX_RUNTIME_SECONDS == 300,
        MEDIA_SEGMENT_STALE_RUNNING_JOB_SECONDS == 21_600,
        MEDIA_SEGMENT_JOB_CANCELLATION_POLL_SECONDS == 2,
        LOCAL_AUDIO_FINGERPRINT_SAMPLE_RATE_HZ == 8_000,
        LOCAL_AUDIO_FINGERPRINT_FRAME_MICROS == 500_000,
        LOCAL_VISUAL_FRAME_HASH_WIDTH == 160,
        LOCAL_VISUAL_FRAME_HASH_HEIGHT == 90,
{
}

} // verus!
