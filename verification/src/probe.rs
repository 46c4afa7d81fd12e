//! What a probe says of a media file.

use vstd::prelude::*;
use crate::error::opt_text;
use crate::text;

verus! {

/// One stream of a file.
#[derive(Debug, Clone)]
pub struct MediaStream {
    pub codec_type: Option<String>,
}

/// One chapter of a file, with its tags.
#[derive(Debug, Clone)]
pub struct Chapter {
    pub id: Option<i64>,
    pub start_time: Option<String>,
    pub end_time: Option<String>,
    pub tags: Option<Vec<(String, String)>>,
}

/// What a probe says of a file.
#[derive(Debug, Clone)]
pub struct MediaMetadata {
    pub duration_seconds: Option<i32>,
    pub container: Option<String>,
    pub video_codec: Option<String>,
    pub audio_codec: Option<String>,
    pub streams: Vec<MediaStream>,
    pub chapters: Vec<Chapter>,
}

/// Whether a file has a stream of a type.
pub open spec fn has_stream(streams: Seq<MediaStream>, kind: Seq<char>) -> bool {
    exists|i: int|
        0 <= i < streams.len() && opt_text((#[trigger] streams[i]).codec_type) == Some(kind)
}

/// Whether a codec is named.
pub open spec fn codec_named(codec: Option<Seq<char>>) -> bool {
    codec is Some && codec->0.len() > 0
}

fn any_stream(streams: &Vec<MediaStream>, kind: &str) -> (r: bool)
    ensures
        r == has_stream(streams@, kind@),
{
    let mut i: usize = 0;
    while i < streams.len()
        invariant
            i <= streams@.len(),
            forall|j: int|
                0 <= j < i ==> opt_text((#[trigger] streams@[j]).codec_type) != Some(kind@),
        decreases streams@.len() - i,
    {
        if let Some(t) = &streams[i].codec_type {
            if text::str_eq(t.as_str(), kind) {
                assert(opt_text(streams@[i as int].codec_type) == Some(kind@));
                return true;
            }
        }
        i += 1;
    }
    false
}

fn is_named(codec: &Option<String>) -> (r: bool)
    ensures
        r == codec_named(opt_text(*codec)),
{
    match codec {
        Some(c) => {
            proof {
                reveal_strlit("");
                if c@.len() == 0 {
                    assert(c@ =~= ""@);
                }
            }
            !text::str_eq(c.as_str(), "")
        },
        None => false,
    }
}

/// Whether a file has audio: a stream of it, or a codec.
pub fn metadata_has_audio_stream(metadata: &MediaMetadata) -> (r: bool)
    ensures
        r == (has_stream(metadata.streams@, "audio"@) || codec_named(
            opt_text(metadata.audio_codec),
        )),
{
    any_stream(&metadata.streams, "audio") || is_named(&metadata.audio_codec)
}

/// Whether a file has video: a stream of it, or a codec.
pub fn metadata_has_video_stream(metadata: &MediaMetadata) -> (r: bool)
    ensures
        r == (has_stream(metadata.streams@, "video"@) || codec_named(
            opt_text(metadata.video_codec),
        )),
{
    any_stream(&metadata.streams, "video") || is_named(&metadata.video_codec)
}

} // verus!
