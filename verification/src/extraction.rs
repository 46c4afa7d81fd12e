//! Taking samples out of a media file: what is known of the file, what is asked
//! of the extracting program, and what is kept of the file.

use vstd::prelude::*;
use crate::error::{opt_text, refuse, SegmentError};
use crate::number;
use crate::probe::MediaMetadata;
use crate::quantity::{self, format_seconds};
use crate::text;

verus! {

/// A media file, as it is stored.
#[derive(Debug, Clone)]
pub struct FingerprintMediaFile {
    pub id: String,
    pub path: String,
    pub size_bytes: Option<i64>,
    pub container: Option<String>,
    pub video_codec: Option<String>,
    pub audio_codec: Option<String>,
    pub duration_seconds: Option<i64>,
    pub scan_state: String,
}

/// What opening and probing a file came to.
#[derive(Debug, Clone)]
pub enum FileProbe {
    /// The file could not be opened, with the message of the error.
    Unavailable(String),
    /// The file has this size, but the probe failed, with the message.
    Failed(i64, String),
    /// The file has this size, but the probe took too long.
    TimedOut(i64),
    /// The file has this size, and the probe says this of it.
    Probed(i64, MediaMetadata),
}

/// How long a file is, in seconds: the probe says so, else what is stored;
/// nothing that is not positive counts.
pub open spec fn known_seconds(probed: Option<i32>, stored: Option<i64>) -> Option<i64> {
    let seconds = match probed {
        Some(n) => Some(n as i64),
        None => stored,
    };
    if seconds is Some && seconds->0 > 0 {
        seconds
    } else {
        None
    }
}

/// How long a file is, in seconds.
pub fn probed_seconds(metadata: &MediaMetadata, file: &FingerprintMediaFile) -> (r: Option<i64>)
    ensures
        r == known_seconds(metadata.duration_seconds, file.duration_seconds),
{
    let seconds: Option<i64> = match metadata.duration_seconds {
        Some(n) => Some(n as i64),
        None => file.duration_seconds,
    };
    match seconds {
        Some(n) => if n > 0 {
            Some(n)
        } else {
            None
        },
        None => None,
    }
}

/// What is kept of a file with its fingerprint.
#[derive(Debug, Clone)]
pub struct FingerprintRow {
    pub media_file_id: String,
    pub duration_seconds: Option<i64>,
    pub file_size_bytes: Option<i64>,
    pub container: Option<String>,
    pub video_codec: Option<String>,
    pub audio_codec: Option<String>,
}

/// The first of two texts that is there.
pub open spec fn first_text(a: Option<Seq<char>>, b: Option<Seq<char>>) -> Option<Seq<char>> {
    if a is Some {
        a
    } else {
        b
    }
}

fn text_or(a: &Option<String>, b: &Option<String>) -> (r: Option<String>)
    ensures
        opt_text(r) == first_text(opt_text(*a), opt_text(*b)),
{
    match a {
        Some(s) => Some(s.clone()),
        None => match b {
            Some(s) => Some(s.clone()),
            None => None,
        },
    }
}

/// What is kept of a file with its fingerprint: what the probe says, else what
/// was stored.
pub fn fingerprint_row(
    file: &FingerprintMediaFile,
    metadata: &MediaMetadata,
    file_size_bytes: Option<i64>,
    duration_seconds: Option<i64>,
) -> (r: FingerprintRow)
    ensures
        r.media_file_id@ == file.id@,
        r.duration_seconds == duration_seconds,
        r.file_size_bytes == if file_size_bytes is Some {
            file_size_bytes
        } else {
            file.size_bytes
        },
        opt_text(r.container) == first_text(opt_text(metadata.container), opt_text(file.container)),
        opt_text(r.video_codec) == first_text(
            opt_text(metadata.video_codec),
            opt_text(file.video_codec),
        ),
        opt_text(r.audio_codec) == first_text(
            opt_text(metadata.audio_codec),
            opt_text(file.audio_codec),
        ),
{
    FingerprintRow {
        media_file_id: file.id.clone(),
        duration_seconds,
        file_size_bytes: match file_size_bytes {
            Some(n) => Some(n),
            None => file.size_bytes,
        },
        container: text_or(&metadata.container, &file.container),
        video_codec: text_or(&metadata.video_codec, &file.video_codec),
        audio_codec: text_or(&metadata.audio_codec, &file.audio_codec),
    }
}

/// What the extracting program is asked for the audio of a range.
pub open spec fn audio_arguments(path: Seq<char>, start: int, length: int) -> Seq<Seq<char>> {
    seq![
        "-hide_banner"@,
        "-nostdin"@,
        "-v"@,
        "error"@,
        "-ss"@,
        seconds_argument(start),
        "-t"@,
        seconds_argument(length),
        "-i"@,
        path,
        "-map"@,
        "0:a:0"@,
        "-vn"@,
        "-sn"@,
        "-dn"@,
        "-ac"@,
        "1"@,
        "-ar"@,
        "8000"@,
        "-f"@,
        "s16le"@,
        "pipe:1"@,
    ]
}

/// A time as an argument; a negative time is zero.
pub open spec fn seconds_argument(micros: int) -> Seq<char> {
    quantity::millis_text(
        if micros < 0 {
            0
        } else {
            micros
        },
    )
}

/// What the extracting program is asked for the audio of a range.
pub fn audio_extraction_arguments(path: &str, start: i64, length: i64) -> (r: Vec<String>)
    ensures
        number::texts(r@) == audio_arguments(path@, start as int, length as int),
{
    let mut v: Vec<String> = Vec::new();
    v.push("-hide_banner".to_owned());
    v.push("-nostdin".to_owned());
    v.push("-v".to_owned());
    v.push("error".to_owned());
    v.push("-ss".to_owned());
    v.push(format_seconds(start));
    v.push("-t".to_owned());
    v.push(format_seconds(length));
    v.push("-i".to_owned());
    v.push(path.to_owned());
    v.push("-map".to_owned());
    v.push("0:a:0".to_owned());
    v.push("-vn".to_owned());
    v.push("-sn".to_owned());
    v.push("-dn".to_owned());
    v.push("-ac".to_owned());
    v.push("1".to_owned());
    v.push("-ar".to_owned());
    v.push("8000".to_owned());
    v.push("-f".to_owned());
    v.push("s16le".to_owned());
    v.push("pipe:1".to_owned());
    proof {
        assert(number::texts(v@) =~= audio_arguments(path@, start as int, length as int));
    }
    v
}

/// How the extracting program is to scale the frames of a range.
pub open spec fn frame_filter(step: int) -> Seq<char> {
    "fps=1/"@ + seconds_argument(step)
        + ",scale=160:90:force_original_aspect_ratio=decrease,pad=160:90:(ow-iw)/2:(oh-ih)/2,format=gray"@
}

/// What the extracting program is asked for the frames of a range.
pub open spec fn frame_arguments(
    path: Seq<char>,
    start: int,
    length: int,
    step: int,
    max_frames: nat,
) -> Seq<Seq<char>> {
    seq![
        "-hide_banner"@,
        "-nostdin"@,
        "-v"@,
        "error"@,
        "-ss"@,
        seconds_argument(start),
        "-t"@,
        seconds_argument(length),
        "-i"@,
        path,
        "-map"@,
        "0:v:0"@,
        "-an"@,
        "-sn"@,
        "-dn"@,
        "-vf"@,
        frame_filter(step),
        "-frames:v"@,
        text::decimal(max_frames),
        "-f"@,
        "rawvideo"@,
        "pipe:1"@,
    ]
}

/// What the extracting program is asked for the frames of a range.
pub fn frame_extraction_arguments(
    path: &str,
    start: i64,
    length: i64,
    step: i64,
    max_frames: usize,
) -> (r: Vec<String>)
    ensures
        number::texts(r@) == frame_arguments(
            path@,
            start as int,
            length as int,
            step as int,
            max_frames as nat,
        ),
{
    let step_text = format_seconds(step);
    let filter = text::join3(
        "fps=1/",
        step_text.as_str(),
        ",scale=160:90:force_original_aspect_ratio=decrease,pad=160:90:(ow-iw)/2:(oh-ih)/2,format=gray",
    );
    let mut v: Vec<String> = Vec::new();
    v.push("-hide_banner".to_owned());
    v.push("-nostdin".to_owned());
    v.push("-v".to_owned());
    v.push("error".to_owned());
    v.push("-ss".to_owned());
    v.push(format_seconds(start));
    v.push("-t".to_owned());
    v.push(format_seconds(length));
    v.push("-i".to_owned());
    v.push(path.to_owned());
    v.push("-map".to_owned());
    v.push("0:v:0".to_owned());
    v.push("-an".to_owned());
    v.push("-sn".to_owned());
    v.push("-dn".to_owned());
    v.push("-vf".to_owned());
    v.push(filter);
    v.push("-frames:v".to_owned());
    v.push(text::u64_text(max_frames as u64));
    v.push("-f".to_owned());
    v.push("rawvideo".to_owned());
    v.push("pipe:1".to_owned());
    proof {
        assert(number::texts(v@) =~= frame_arguments(
            path@,
            start as int,
            length as int,
            step as int,
            max_frames as nat,
        ));
    }
    v
}

/// How waiting for the extracting program ended.
#[derive(Debug, Clone, Copy, PartialEq, Eq, Structural)]
pub enum LocalFfmpegWaitOutcome {
    Completed,
    TimedOut,
    Cancelled,
    Shutdown,
}

/// The error of a wait that did not end with the program's own end.
pub open spec fn wait_error(operation: Seq<char>, outcome: LocalFfmpegWaitOutcome) -> Option<Seq<char>> {
    match outcome {
        LocalFfmpegWaitOutcome::Completed => None,
        LocalFfmpegWaitOutcome::TimedOut => Some(operation + " timed out"@),
        LocalFfmpegWaitOutcome::Cancelled => Some(operation + " cancelled"@),
        LocalFfmpegWaitOutcome::Shutdown => Some(operation + " interrupted by shutdown"@),
    }
}

/// Refuses the output of a wait that did not end with the program's own end.
pub fn check_wait(operation: &str, outcome: LocalFfmpegWaitOutcome) -> (r: Result<(), SegmentError>)
    ensures
        match wait_error(operation@, outcome) {
            None => r is Ok,
            Some(m) => r matches Err(e) && e.message@ == m,
        },
{
    let ending = match outcome {
        LocalFfmpegWaitOutcome::Completed => {
            return Ok(());
        },
        LocalFfmpegWaitOutcome::TimedOut => " timed out",
        LocalFfmpegWaitOutcome::Cancelled => " cancelled",
        LocalFfmpegWaitOutcome::Shutdown => " interrupted by shutdown",
    };
    let message = text::join2(operation, ending);
    Err(refuse(message.as_str()))
}

/// An interruption by a shutdown is known by its message.
pub proof fn shutdown_is_known_by_its_message(operation: Seq<char>)
    ensures
        text::contains_seq(
            wait_error(operation, LocalFfmpegWaitOutcome::Shutdown)->0,
            "interrupted by shutdown"@,
        ),
{
    reveal_strlit(" interrupted by shutdown");
    reveal_strlit("interrupted by shutdown");
    let s = operation + " interrupted by shutdown"@;
    let p = "interrupted by shutdown"@;
    let at = operation.len() as int + 1;
    assert(s.subrange(at, at + p.len()) =~= p);
    assert(text::occurs_at(s, p, at));
}

/// How long a file is: what the probe says where it says anything, else what is
/// stored, if it is positive.
pub proof fn probes_tell_the_length(probed: Option<i32>, stored: Option<i64>)
    ensures
        probed is Some && probed->0 > 0 ==> known_seconds(probed, stored) == Some(probed->0 as i64),
        probed is Some && probed->0 <= 0 ==> known_seconds(probed, stored) is None,
        probed is None && stored is Some && stored->0 > 0 ==> known_seconds(probed, stored)
            == stored,
        probed is None && (stored is None || stored->0 <= 0) ==> known_seconds(probed, stored)
            is None,
{
}

/// The audio of a range is taken of the file, from its start and as long as the range
/// lasts, as one channel of eight thousand signed samples a second.
pub proof fn audio_is_asked_for_its_range(path: Seq<char>, start: int, length: int)
    requires
        start >= 0,
        length >= 0,
    ensures
        ({
            let a = audio_arguments(path, start, length);
            &&& a.len() == 22
            &&& a[4] == "-ss"@ && a[5] == quantity::millis_text(start)
            &&& a[6] == "-t"@ && a[7] == quantity::millis_text(length)
            &&& a[8] == "-i"@ && a[9] == path
            &&& a[10] == "-map"@ && a[11] == "0:a:0"@
            &&& a[15] == "-ac"@ && a[16] == "1"@
            &&& a[17] == "-ar"@ && a[18] == "8000"@
            &&& a[19] == "-f"@ && a[20] == "s16le"@
            &&& a[21] == "pipe:1"@
        }),
{
}

/// The frames of a range are taken of the file, from its start and as long as the range
/// lasts, one each step and no more than are wanted, in 160 by 90 shades of grey.
pub proof fn frames_are_asked_for_their_range(
    path: Seq<char>,
    start: int,
    length: int,
    step: int,
    max_frames: nat,
)
    requires
        start >= 0,
        length >= 0,
        step >= 0,
    ensures
        ({
            let a = frame_arguments(path, start, length, step, max_frames);
            &&& a.len() == 22
            &&& a[4] == "-ss"@ && a[5] == quantity::millis_text(start)
            &&& a[6] == "-t"@ && a[7] == quantity::millis_text(length)
            &&& a[8] == "-i"@ && a[9] == path
            &&& a[10] == "-map"@ && a[11] == "0:v:0"@
            &&& a[15] == "-vf"@ && text::has_prefix_seq(
                a[16],
                "fps=1/"@ + quantity::millis_text(step) + ",scale=160:90:"@,
            )
            &&& text::has_suffix_seq(a[16], "format=gray"@)
            &&& a[17] == "-frames:v"@ && a[18] == text::decimal(max_frames)
            &&& a[19] == "-f"@ && a[20] == "rawvideo"@
            &&& a[21] == "pipe:1"@
        }),
{
    let f = frame_filter(step);
    let tail =
        ",scale=160:90:force_original_aspect_ratio=decrease,pad=160:90:(ow-iw)/2:(oh-ih)/2,format=gray"@;
    reveal_strlit(
        ",scale=160:90:force_original_aspect_ratio=decrease,pad=160:90:(ow-iw)/2:(oh-ih)/2,format=gray",
    );
    reveal_strlit(",scale=160:90:");
    reveal_strlit("format=gray");
    let scale = ",scale=160:90:"@;
    let gray = "format=gray"@;
    let head = "fps=1/"@ + quantity::millis_text(step);
    assert(tail.take(scale.len() as int) =~= scale);
    assert(tail.skip(tail.len() - gray.len()) =~= gray);
    assert(f == head + tail);
    assert(f.take((head + scale).len() as int) =~= head + tail.take(scale.len() as int));
    assert(f.skip(f.len() - gray.len()) =~= tail.skip(tail.len() - gray.len()));
}

/// A time before the start is asked for as the start.
pub proof fn negative_times_are_the_start(micros: int)
    requires
        micros < 0,
    ensures
        seconds_argument(micros) == seconds_argument(0),
{
}

/// An extraction that did not end by itself tells what ended it.
pub proof fn waits_tell_what_ended_them(operation: Seq<char>, outcome: LocalFfmpegWaitOutcome)
    ensures
        match outcome {
            LocalFfmpegWaitOutcome::Completed => wait_error(operation, outcome) is None,
            LocalFfmpegWaitOutcome::TimedOut => wait_error(operation, outcome) == Some(
                operation + " timed out"@,
            ),
            LocalFfmpegWaitOutcome::Cancelled => wait_error(operation, outcome) == Some(
                operation + " cancelled"@,
            ),
            LocalFfmpegWaitOutcome::Shutdown => wait_error(operation, outcome) == Some(
                operation + " interrupted by shutdown"@,
            ),
        },
{
}

/// What is kept of a file with its fingerprint is what the probe says, else what was
/// stored.
pub proof fn probes_go_before_what_is_stored(
    file: &FingerprintMediaFile,
    metadata: &MediaMetadata,
    file_size_bytes: Option<i64>,
    duration_seconds: Option<i64>,
    r: FingerprintRow,
)
    requires
        call_ensures(
            fingerprint_row,
            (file, metadata, file_size_bytes, duration_seconds),
            r,
        ),
    ensures
        r.media_file_id@ == file.id@,
        r.duration_seconds == duration_seconds,
        file_size_bytes is Some ==> r.file_size_bytes == file_size_bytes,
        file_size_bytes is None ==> r.file_size_bytes == file.size_bytes,
        metadata.container is Some ==> opt_text(r.container) == Some(metadata.container->0@),
        metadata.container is None ==> opt_text(r.container) == opt_text(file.container),
        metadata.video_codec is Some ==> opt_text(r.video_codec) == Some(metadata.video_codec->0@),
        metadata.video_codec is None ==> opt_text(r.video_codec) == opt_text(file.video_codec),
        metadata.audio_codec is Some ==> opt_text(r.audio_codec) == Some(metadata.audio_codec->0@),
        metadata.audio_codec is None ==> opt_text(r.audio_codec) == opt_text(file.audio_codec),
{
}

/// The extracting program is asked to keep quiet, and for nothing but the stream that is
/// taken.
pub proof fn extractions_are_quiet(
    path: Seq<char>,
    start: int,
    length: int,
    step: int,
    max_frames: nat,
)
    ensures
        ({
            let a = audio_arguments(path, start, length);
            &&& a[0] == "-hide_banner"@ && a[1] == "-nostdin"@ && a[2] == "-v"@ && a[3] == "error"@
            &&& a[12] == "-vn"@ && a[13] == "-sn"@ && a[14] == "-dn"@
        }),
        ({
            let f = frame_arguments(path, start, length, step, max_frames);
            &&& f[0] == "-hide_banner"@ && f[1] == "-nostdin"@ && f[2] == "-v"@ && f[3] == "error"@
            &&& f[12] == "-an"@ && f[13] == "-sn"@ && f[14] == "-dn"@
        }),
        frame_filter(step) == "fps=1/"@ + seconds_argument(step)
            + ",scale=160:90:force_original_aspect_ratio=decrease,pad=160:90:(ow-iw)/2:(oh-ih)/2,format=gray"@,
{
}

} // verus!
