//! Segments from the chapters of a file.

use vstd::prelude::*;
use crate::candidate::{self, SegmentCandidateInput, Submission};
use crate::consts;
use crate::error::opt_text;
use crate::json::{self, text_value, Json, JsonNumber, JsonValue};
use crate::number::{self, parse_chapter_seconds};
use crate::probe::{Chapter, MediaMetadata};
use crate::quantity::Quantity;
use crate::runs::ChapterIngestionSummary;
use crate::settings::whole_value;
use crate::text;
use crate::visual;

verus! {

/// Some tags, as mathematical values.
pub open spec fn tag_pairs(tags: Seq<(String, String)>) -> Seq<(Seq<char>, Seq<char>)> {
    tags.map_values(|t: (String, String)| (t.0@, t.1@))
}

/// The trimmed text of the first tag that is a title and not empty.
pub open spec fn title_in(tags: Seq<(Seq<char>, Seq<char>)>) -> Option<Seq<char>>
    decreases tags.len(),
{
    if tags.len() == 0 {
        None
    } else if text::lower_seq(tags[0].0) == "title"@ && text::trim_seq(tags[0].1).len() > 0 {
        Some(text::trim_seq(tags[0].1))
    } else {
        title_in(tags.drop_first())
    }
}

/// The title of a chapter.
pub open spec fn title_of(c: Chapter) -> Option<Seq<char>> {
    match c.tags {
        Some(tags) => title_in(tag_pairs(tags@)),
        None => None,
    }
}

/// The title of a chapter.
pub fn chapter_title(chapter: &Chapter) -> (r: Option<String>)
    ensures
        opt_text(r) == title_of(*chapter),
{
    let tags: &Vec<(String, String)> = match &chapter.tags {
        Some(t) => t,
        None => {
            return None;
        },
    };
    let ghost all = tag_pairs(tags@);
    let mut i: usize = 0;
    proof {
        assert(all.skip(0) =~= all);
        reveal_strlit("");
    }
    while i < tags.len()
        invariant
            i <= tags@.len(),
            all == tag_pairs(tags@),
            ""@.len() == 0,
            title_of(*chapter) == title_in(all),
            title_in(all) == title_in(all.skip(i as int)),
        decreases tags@.len() - i,
    {
        proof {
            assert(all.skip(i as int)[0] == all[i as int]);
            assert(all.skip(i as int).drop_first() =~= all.skip(i + 1));
        }
        let key = text::to_lower(tags[i].0.as_str());
        if text::str_eq(key.as_str(), "title") {
            let value = text::trim(tags[i].1.as_str());
            proof {
                if value@.len() == 0 {
                    assert(value@ =~= ""@);
                }
            }
            if !text::str_eq(value.as_str(), "") {
                return Some(value);
            }
        }
        i += 1;
    }
    None
}

/// Whether a character is a letter or digit of ASCII.
pub open spec fn alphanumeric(c: char) -> bool {
    ('0' <= c <= '9') || ('a' <= c <= 'z') || ('A' <= c <= 'Z')
}

/// Whether `w` stands in `s` from `i` on as a word of its own.
pub open spec fn word_at(s: Seq<char>, w: Seq<char>, i: int) -> bool {
    &&& text::occurs_at(s, w, i)
    &&& i == 0 || !alphanumeric(s[i - 1])
    &&& i + w.len() == s.len() || !alphanumeric(s[i + w.len()])
}

/// Whether `w` stands in `s` as a word of its own.
pub open spec fn has_word(s: Seq<char>, w: Seq<char>) -> bool {
    exists|i: int| word_at(s, w, i)
}

fn is_alphanumeric(c: char) -> (r: bool)
    ensures
        r == alphanumeric(c),
{
    ('0' <= c && c <= '9') || ('a' <= c && c <= 'z') || ('A' <= c && c <= 'Z')
}

fn occurs(v: &Vec<char>, w: &Vec<char>, at: usize) -> (r: bool)
    requires
        at + w@.len() <= v@.len(),
    ensures
        r == text::occurs_at(v@, w@, at as int),
{
    let n: usize = w.len();
    let total: usize = v.len();
    let mut i: usize = 0;
    while i < n
        invariant
            i <= n == w@.len(),
            at + n <= total == v@.len(),
            forall|j: int| 0 <= j < i ==> v@[at + j] == #[trigger] w@[j],
        decreases n - i,
    {
        if v[at + i] != w[i] {
            proof {
                let sub = v@.subrange(at as int, at + w@.len());
                assert(sub[i as int] != w@[i as int]);
            }
            return false;
        }
        i += 1;
    }
    proof {
        assert(v@.subrange(at as int, at + w@.len()) =~= w@);
    }
    true
}

fn contains_word(s: &str, w: &str) -> (r: bool)
    requires
        w@.len() > 0,
    ensures
        r == has_word(s@, w@),
{
    let v = text::chars_of(s);
    let x = text::chars_of(w);
    let n: usize = v.len();
    let m: usize = x.len();
    let mut i: usize = 0;
    while m <= n && i <= n - m
        invariant
            n == v@.len(),
            0 < m == x@.len(),
            v@ == s@,
            x@ == w@,
            m <= n ==> i <= n - m + 1,
            forall|j: int| 0 <= j < i ==> !#[trigger] word_at(s@, w@, j),
        decreases n + 1 - i,
    {
        if occurs(&v, &x, i) && (i == 0 || !is_alphanumeric(v[i - 1])) && (i + m == n
            || !is_alphanumeric(v[i + m])) {
            proof {
                assert(word_at(s@, w@, i as int));
            }
            return true;
        }
        i += 1;
    }
    false
}

/// The segment type that the title of a chapter names.
pub open spec fn type_of_title(title: Seq<char>) -> Option<Seq<char>> {
    let s = text::lower_seq(title);
    if text::contains_seq(s, "previously"@) || has_word(s, "recap"@) {
        Some("recap"@)
    } else if text::contains_seq(s, "next time"@) || text::contains_seq(s, "next episode"@)
        || has_word(s, "preview"@) || has_word(s, "trailer"@) {
        Some("preview"@)
    } else if text::contains_seq(s, "credit"@) {
        Some("credits"@)
    } else if text::contains_seq(s, "opening"@) || has_word(s, "intro"@) || has_word(s, "op"@)
        || text::contains_seq(s, "title sequence"@) {
        Some("intro"@)
    } else if text::contains_seq(s, "ending"@) || has_word(s, "outro"@) || has_word(s, "ed"@)
        || text::contains_seq(s, "end theme"@) {
        Some("outro"@)
    } else {
        None
    }
}

/// The segment type that the title of a chapter names.
pub fn chapter_segment_type(title: &str) -> (r: Option<&'static str>)
    ensures
        match r {
            Some(t) => type_of_title(title@) == Some(t@),
            None => type_of_title(title@) is None,
        },
{
    let lowered = text::to_lower(title);
    let s = lowered.as_str();
    proof {
        reveal_strlit("recap");
        reveal_strlit("preview");
        reveal_strlit("trailer");
        reveal_strlit("intro");
        reveal_strlit("op");
        reveal_strlit("outro");
        reveal_strlit("ed");
    }
    if text::contains_str(s, "previously") || contains_word(s, "recap") {
        return Some("recap");
    }
    if text::contains_str(s, "next time") || text::contains_str(s, "next episode")
        || contains_word(s, "preview") || contains_word(s, "trailer") {
        return Some("preview");
    }
    if text::contains_str(s, "credit") {
        return Some("credits");
    }
    if text::contains_str(s, "opening") || contains_word(s, "intro") || contains_word(s, "op")
        || text::contains_str(s, "title sequence") {
        return Some("intro");
    }
    if text::contains_str(s, "ending") || contains_word(s, "outro") || contains_word(s, "ed")
        || text::contains_str(s, "end theme") {
        return Some("outro");
    }
    None
}

/// Some tags in a payload, by their name.
pub open spec fn tag_members(tags: Seq<(Seq<char>, Seq<char>)>) -> Seq<(Seq<char>, Json)>
    decreases tags.len(),
{
    if tags.len() == 0 {
        Seq::empty()
    } else {
        json::with_member(tag_members(tags.drop_last()), tags.last().0, Json::Text(tags.last().1))
    }
}

/// The tags of a chapter in a payload.
pub open spec fn tags_json(c: Chapter) -> Json {
    match c.tags {
        Some(tags) => Json::Object(tag_members(tag_pairs(tags@))),
        None => Json::Null,
    }
}

fn tags_value(chapter: &Chapter) -> (v: JsonValue)
    ensures
        v@ == tags_json(*chapter),
{
    let tags: &Vec<(String, String)> = match &chapter.tags {
        Some(t) => t,
        None => {
            return JsonValue::Null;
        },
    };
    let ghost all = tag_pairs(tags@);
    let mut o: Vec<(String, JsonValue)> = Vec::new();
    let mut i: usize = 0;
    proof {
        assert(all.take(0) =~= Seq::empty());
        assert(json::members_of(o@) =~= Seq::empty());
    }
    while i < tags.len()
        invariant
            i <= tags@.len(),
            all == tag_pairs(tags@),
            json::members_of(o@) == tag_members(all.take(i as int)),
        decreases tags@.len() - i,
    {
        proof {
            assert(all.take(i + 1).drop_last() =~= all.take(i as int));
            assert(all.take(i + 1).last() == all[i as int]);
        }
        let value = text_value(tags[i].1.as_str());
        json::set_member(&mut o, tags[i].0.as_str(), value);
        i += 1;
    }
    proof {
        assert(all.take(tags@.len() as int) =~= all);
        json::lemma_view_object(o);
    }
    JsonValue::Object(o)
}

/// What a candidate of a chapter says of its source.
pub open spec fn chapter_json(c: Chapter, title: Seq<char>, duration_seconds: Option<i32>) -> Json {
    Json::Object(
        seq![
            (
                "chapter_id"@,
                match c.id {
                    Some(n) => crate::settings::whole_json(n),
                    None => Json::Null,
                },
            ),
            (
                "duration_seconds"@,
                match duration_seconds {
                    Some(n) => visual::fraction_json((n * 1_000_000) as i64),
                    None => Json::Null,
                },
            ),
            ("source"@, Json::Text("ffprobe_chapters"@)),
            ("tags"@, tags_json(c)),
            ("title"@, Json::Text(title)),
        ],
    )
}

fn chapter_value(chapter: &Chapter, title: &str, duration_seconds: Option<i32>) -> (v: JsonValue)
    ensures
        v@ == chapter_json(*chapter, title@, duration_seconds),
{
    let mut o: Vec<(String, JsonValue)> = Vec::new();
    o.push(
        (
            "chapter_id".to_owned(),
            match chapter.id {
                Some(n) => whole_value(n),
                None => JsonValue::Null,
            },
        ),
    );
    o.push(
        (
            "duration_seconds".to_owned(),
            match duration_seconds {
                Some(n) => JsonValue::Number(JsonNumber::Fraction(n as i64 * 1_000_000)),
                None => JsonValue::Null,
            },
        ),
    );
    o.push(("source".to_owned(), text_value("ffprobe_chapters")));
    o.push(("tags".to_owned(), tags_value(chapter)));
    o.push(("title".to_owned(), text_value(title)));
    proof {
        json::lemma_view_object(o);
        assert(json::members_of(o@) =~= chapter_json(
            *chapter,
            title@,
            duration_seconds,
        )->Object_0);
    }
    JsonValue::Object(o)
}

/// A time of a chapter, in microseconds.
pub open spec fn chapter_time(t: Option<String>) -> Option<i64> {
    match t {
        Some(s) => number::finite_of(text::trim_seq(s@)),
        None => None,
    }
}

/// The candidate of a chapter: its title names a segment type, and it has a
/// start and an end.
pub open spec fn chapter_candidate(
    media_file_id: Seq<char>,
    c: Chapter,
    duration_seconds: Option<i32>,
) -> Option<Submission> {
    match title_of(c) {
        Some(title) => {
            let kind = type_of_title(title);
            let start = chapter_time(c.start_time);
            let end = chapter_time(c.end_time);
            if kind is None || start is None || end is None {
                None
            } else {
                Some(
                    Submission {
                        media_file_id,
                        item_type: None,
                        item_id: None,
                        segment_type: kind->0,
                        start: Quantity::Micros(start->0),
                        end: Quantity::Micros(end->0),
                        provider_kind: consts::PROVIDER_CHAPTER@,
                        provider_id: consts::CHAPTER_PROVIDER_ID@,
                        provider_version: Some(consts::CHAPTER_PROVIDER_VERSION@),
                        confidence: Quantity::Micros(850_000),
                        identity_strength: "file_fingerprint"@,
                        source_payload: Some(chapter_json(c, title, duration_seconds)),
                    },
                )
            }
        },
        None => None,
    }
}

/// The candidates of some chapters.
pub open spec fn chapter_candidates(
    media_file_id: Seq<char>,
    chapters: Seq<Chapter>,
    duration_seconds: Option<i32>,
) -> Seq<Submission>
    decreases chapters.len(),
{
    if chapters.len() == 0 {
        Seq::empty()
    } else {
        let rest = chapter_candidates(media_file_id, chapters.drop_last(), duration_seconds);
        match chapter_candidate(media_file_id, chapters.last(), duration_seconds) {
            Some(c) => rest.push(c),
            None => rest,
        }
    }
}

fn read_time(t: &Option<String>) -> (r: Option<i64>)
    ensures
        r == chapter_time(*t),
{
    match t {
        Some(s) => parse_chapter_seconds(s.as_str()),
        None => None,
    }
}

fn chapter_input(media_file_id: &str, chapter: &Chapter, duration_seconds: Option<i32>) -> (r: Option<
    SegmentCandidateInput,
>)
    ensures
        match r {
            Some(i) => chapter_candidate(media_file_id@, *chapter, duration_seconds) == Some(i@),
            None => chapter_candidate(media_file_id@, *chapter, duration_seconds) is None,
        },
{
    let title: String = match chapter_title(chapter) {
        Some(t) => t,
        None => {
            return None;
        },
    };
    let segment_type = match chapter_segment_type(title.as_str()) {
        Some(t) => t,
        None => {
            return None;
        },
    };
    let start: i64 = match read_time(&chapter.start_time) {
        Some(t) => t,
        None => {
            return None;
        },
    };
    let end: i64 = match read_time(&chapter.end_time) {
        Some(t) => t,
        None => {
            return None;
        },
    };
    Some(
        SegmentCandidateInput {
            media_file_id: media_file_id.to_owned(),
            item_type: None,
            item_id: None,
            segment_type: segment_type.to_owned(),
            start: Quantity::Micros(start),
            end: Quantity::Micros(end),
            provider_kind: consts::PROVIDER_CHAPTER.to_owned(),
            provider_id: consts::CHAPTER_PROVIDER_ID.to_owned(),
            provider_version: Some(consts::CHAPTER_PROVIDER_VERSION.to_owned()),
            confidence: Quantity::Micros(850_000),
            identity_strength: "file_fingerprint".to_owned(),
            source_payload: Some(chapter_value(chapter, title.as_str(), duration_seconds)),
        },
    )
}

/// What the chapters of a file lead to: the report so far, and the candidates
/// that are then submitted one by one.
pub fn ingest_chapter_segments_from_metadata(media_file_id: &str, metadata: &MediaMetadata) -> (r: (
    ChapterIngestionSummary,
    Vec<SegmentCandidateInput>,
))
    ensures
        r.0.media_file_id@ == media_file_id@,
        r.0.chapters_seen == metadata.chapters@.len(),
        r.0.candidates_submitted == 0,
        r.0.candidates_accepted == 0,
        r.0.candidates_rejected == 0,
        r.0.active_segments == 0,
        candidate::submissions(r.1@) == chapter_candidates(
            media_file_id@,
            metadata.chapters@,
            metadata.duration_seconds,
        ),
{
    let summary = ChapterIngestionSummary {
        media_file_id: media_file_id.to_owned(),
        chapters_seen: metadata.chapters.len(),
        candidates_submitted: 0,
        candidates_accepted: 0,
        candidates_rejected: 0,
        active_segments: 0,
    };
    let ghost all = metadata.chapters@;
    let mut inputs: Vec<SegmentCandidateInput> = Vec::new();
    let mut i: usize = 0;
    proof {
        assert(all.take(0) =~= Seq::empty());
        assert(candidate::submissions(inputs@) =~= Seq::empty());
    }
    while i < metadata.chapters.len()
        invariant
            i <= metadata.chapters@.len(),
            all == metadata.chapters@,
            candidate::submissions(inputs@) == chapter_candidates(
                media_file_id@,
                all.take(i as int),
                metadata.duration_seconds,
            ),
        decreases metadata.chapters@.len() - i,
    {
        proof {
            assert(all.take(i + 1).drop_last() =~= all.take(i as int));
        }
        let ghost before = candidate::submissions(inputs@);
        match chapter_input(media_file_id, &metadata.chapters[i], metadata.duration_seconds) {
            Some(input) => {
                inputs.push(input);
                proof {
                    assert(candidate::submissions(inputs@) =~= before.push(input@));
                }
            },
            None => {},
        }
        i += 1;
    }
    proof {
        assert(all.take(all.len() as int) =~= all);
    }
    (summary, inputs)
}

/// Counts a submitted candidate by the state of its validation.
pub fn count_chapter_candidate(summary: &mut ChapterIngestionSummary, validation_state: &str)
    requires
        old(summary).candidates_submitted < usize::MAX,
        old(summary).candidates_accepted < usize::MAX,
        old(summary).candidates_rejected < usize::MAX,
    ensures
        *final(summary) == (ChapterIngestionSummary {
            candidates_submitted: (old(summary).candidates_submitted + 1) as usize,
            candidates_accepted: (old(summary).candidates_accepted + if validation_state@
                == "accepted"@ {
                1int
            } else {
                0
            }) as usize,
            candidates_rejected: (old(summary).candidates_rejected + if validation_state@
                == "accepted"@ {
                0int
            } else {
                1
            }) as usize,
            ..*old(summary)
        }),
{
    summary.candidates_submitted = summary.candidates_submitted + 1;
    if text::str_eq(validation_state, "accepted") {
        summary.candidates_accepted = summary.candidates_accepted + 1;
    } else {
        summary.candidates_rejected = summary.candidates_rejected + 1;
    }
}

/// The whole seconds of a length that a probe kept, to the nearest.
pub open spec fn whole_seconds(micros: i64) -> int {
    let n = if micros < 0 {
        -((-micros + 500_000) / 1_000_000)
    } else {
        (micros + 500_000) / 1_000_000
    };
    if n > i32::MAX {
        i32::MAX as int
    } else if n < i32::MIN {
        i32::MIN as int
    } else {
        n
    }
}

/// The length that a kept probe names, in whole seconds.
pub fn kept_probe_seconds(normalized: Option<&JsonValue>) -> (r: Option<i32>)
    ensures
        match json::json_get_opt(json::opt_json(normalized), "duration_seconds"@) {
            Some(v) => match json::json_micros(v) {
                Some(n) => r == Some(whole_seconds(n) as i32),
                None => r is None,
            },
            None => r is None,
        },
{
    let value: &JsonValue = match normalized {
        Some(v) => v,
        None => {
            return None;
        },
    };
    match value.get("duration_seconds") {
        Some(v) => match v.as_micros() {
            Some(n) => {
                let m: i128 = if n < 0 {
                    -(n as i128)
                } else {
                    n as i128
                };
                let whole: i128 = (m + 500_000) / 1_000_000;
                let signed: i128 = if n < 0 {
                    -whole
                } else {
                    whole
                };
                let bounded: i32 = if signed > 2_147_483_647 {
                    2_147_483_647
                } else if signed < -2_147_483_648 {
                    -2_147_483_648
                } else {
                    signed as i32
                };
                Some(bounded)
            },
            None => None,
        },
        None => None,
    }
}

/// What the title of a chapter says of its segment, whatever its case. A title
/// that tells of what went before is a recap; else one that tells of what comes
/// next is a preview; else one with credits is credits; else one of an opening is
/// an intro; else one of an ending is an outro; any other names no segment.
pub proof fn titles_name_their_segment(title: Seq<char>)
    ensures
        ({
            let s = text::lower_seq(title);
            let kind = type_of_title(title);
            let recap = text::contains_seq(s, "previously"@) || has_word(s, "recap"@);
            let preview = text::contains_seq(s, "next time"@) || text::contains_seq(
                s,
                "next episode"@,
            ) || has_word(s, "preview"@) || has_word(s, "trailer"@);
            let credits = text::contains_seq(s, "credit"@);
            let intro = text::contains_seq(s, "opening"@) || text::contains_seq(
                s,
                "title sequence"@,
            ) || has_word(s, "intro"@) || has_word(s, "op"@);
            let outro = text::contains_seq(s, "ending"@) || text::contains_seq(s, "end theme"@)
                || has_word(s, "outro"@) || has_word(s, "ed"@);
            &&& kind == Some("recap"@) <==> recap
            &&& kind == Some("preview"@) <==> preview && !recap
            &&& kind == Some("credits"@) <==> credits && !recap && !preview
            &&& kind == Some("intro"@) <==> intro && !recap && !preview && !credits
            &&& kind == Some("outro"@) <==> outro && !recap && !preview && !credits && !intro
            &&& kind is None <==> !recap && !preview && !credits && !intro && !outro
        }),
{
    lemma_types_differ();
}

proof fn lemma_types_differ()
    ensures
        "recap"@ != "preview"@,
        "recap"@ != "credits"@,
        "recap"@ != "intro"@,
        "recap"@ != "outro"@,
        "preview"@ != "credits"@,
        "preview"@ != "intro"@,
        "preview"@ != "outro"@,
        "credits"@ != "intro"@,
        "credits"@ != "outro"@,
        "intro"@ != "outro"@,
{
    reveal_strlit("recap");
    reveal_strlit("preview");
    reveal_strlit("credits");
    reveal_strlit("intro");
    reveal_strlit("outro");
    assert("recap"@.len() == 5);
    assert("preview"@.len() == 7);
    assert("credits"@.len() == 7);
    assert("intro"@.len() == 5);
    assert("outro"@.len() == 5);
    assert("recap"@[0] == 'r');
    assert("preview"@[0] == 'p');
    assert("credits"@[0] == 'c');
    assert("intro"@[0] == 'i');
    assert("outro"@[0] == 'o');
}

/// A word stands alone: what is before it and after it, if anything, is no letter
/// and no digit. A text stands in another wherever it is put.
pub proof fn words_stand_alone(before: Seq<char>, w: Seq<char>, after: Seq<char>)
    requires
        w.len() > 0,
    ensures
        text::contains_seq(before + w + after, w),
        ({
            let letter = |c: char|
                ('0' <= c <= '9') || ('a' <= c <= 'z') || ('A' <= c <= 'Z');
            (before.len() == 0 || !letter(before.last())) && (after.len() == 0 || !letter(
                after[0],
            )) ==> has_word(before + w + after, w)
        }),
{
    let s = before + w + after;
    let i = before.len() as int;
    assert(s.subrange(i, i + w.len()) =~= w);
    assert(text::occurs_at(s, w, i));
    if before.len() > 0 {
        assert(s[i - 1] == before.last());
    }
    if after.len() > 0 {
        assert(s[i + w.len()] == after[0]);
    }
    if (before.len() == 0 || !alphanumeric(before.last())) && (after.len() == 0 || !alphanumeric(
        after[0],
    )) {
        assert(word_at(s, w, i));
    }
}

/// A text that has a word is made of what stands before it, the word and what
/// stands after it, neither of which touches it with a letter or digit.
pub proof fn words_are_found_where_they_stand(s: Seq<char>, w: Seq<char>) -> (r: (
    Seq<char>,
    Seq<char>,
))
    requires
        w.len() > 0,
        has_word(s, w),
    ensures
        s == r.0 + w + r.1,
        ({
            let letter = |c: char|
                ('0' <= c <= '9') || ('a' <= c <= 'z') || ('A' <= c <= 'Z');
            &&& r.0.len() > 0 ==> !letter(r.0.last())
            &&& r.1.len() > 0 ==> !letter(r.1[0])
        }),
        text::contains_seq(s, w),
{
    let i = choose|i: int| word_at(s, w, i);
    let a = s.take(i);
    let b = s.skip(i + w.len());
    assert(text::occurs_at(s, w, i));
    assert(s.subrange(i, i + w.len()) == w);
    assert(s =~= a + w + b) by {
        assert forall|k: int| 0 <= k < s.len() implies s[k] == (a + w + b)[k] by {
            if i <= k < i + w.len() {
                assert(s.subrange(i, i + w.len())[k - i] == s[k]);
            }
        }
    }
    (a, b)
}

/// The title of a chapter is its first tag by that name, in whatever case, that
/// holds more than white space.
pub proof fn first_title_counts(tags: Seq<(Seq<char>, Seq<char>)>, k: int)
    requires
        0 <= k < tags.len(),
        text::lower_seq(tags[k].0) == "title"@,
        text::trim_seq(tags[k].1).len() > 0,
        forall|i: int|
            0 <= i < k ==> text::lower_seq((#[trigger] tags[i]).0) != "title"@ || text::trim_seq(
                tags[i].1,
            ).len() == 0,
    ensures
        title_in(tags) == Some(text::trim_seq(tags[k].1)),
    decreases k,
{
    if k > 0 {
        assert(text::lower_seq(tags[0].0) != "title"@ || text::trim_seq(tags[0].1).len() == 0);
        let rest = tags.drop_first();
        assert forall|i: int| 0 <= i < k - 1 implies text::lower_seq((#[trigger] rest[i]).0)
            != "title"@ || text::trim_seq(rest[i].1).len() == 0 by {
            assert(rest[i] == tags[i + 1]);
        }
        first_title_counts(rest, k - 1);
    }
}

/// Every chapter whose title names a segment and whose times can be read is a
/// candidate, from its start to its end.
pub proof fn named_chapters_are_candidates(
    media_file_id: Seq<char>,
    chapters: Seq<Chapter>,
    duration_seconds: Option<i32>,
    k: int,
) -> (at: int)
    requires
        0 <= k < chapters.len(),
        title_of(chapters[k]) is Some,
        type_of_title(title_of(chapters[k])->0) is Some,
        chapters[k].start_time is Some,
        chapters[k].end_time is Some,
        number::finite_of(text::trim_seq(chapters[k].start_time->0@)) is Some,
        number::finite_of(text::trim_seq(chapters[k].end_time->0@)) is Some,
    ensures
        ({
            let found = chapter_candidates(media_file_id, chapters, duration_seconds);
            let title = title_of(chapters[k])->0;
            &&& 0 <= at < found.len()
            &&& found[at].media_file_id == media_file_id
            &&& found[at].segment_type == type_of_title(title)->0
            &&& found[at].start == Quantity::Micros(
                number::finite_of(text::trim_seq(chapters[k].start_time->0@))->0,
            )
            &&& found[at].end == Quantity::Micros(
                number::finite_of(text::trim_seq(chapters[k].end_time->0@))->0,
            )
            &&& found[at].provider_kind == "chapter"@
            &&& found[at].provider_id == "ffprobe_chapters"@
            &&& found[at].provider_version == Some("1"@)
            &&& found[at].confidence == Quantity::Micros(850_000)
            &&& found[at].identity_strength == "file_fingerprint"@
            &&& found[at].source_payload is Some
            &&& json::json_get(found[at].source_payload->0, "title"@) == Some(Json::Text(title))
            &&& json::json_get(found[at].source_payload->0, "chapter_id"@) == Some(
                match chapters[k].id {
                    Some(n) => crate::settings::whole_json(n),
                    None => Json::Null,
                },
            )
        }),
    decreases chapters.len(),
{
    let rest = chapter_candidates(media_file_id, chapters.drop_last(), duration_seconds);
    if k < chapters.len() - 1 {
        assert(chapters.drop_last()[k] == chapters[k]);
        named_chapters_are_candidates(media_file_id, chapters.drop_last(), duration_seconds, k)
    } else {
        let title = title_of(chapters[k])->0;
        let m = chapter_json(chapters[k], title, duration_seconds)->Object_0;
        reveal_strlit("title");
        reveal_strlit("tags");
        reveal_strlit("source");
        reveal_strlit("duration_seconds");
        reveal_strlit("chapter_id");
        assert("title"@.len() == 5 && "tags"@.len() == 4 && "source"@.len() == 6);
        assert("duration_seconds"@.len() == 16 && "chapter_id"@.len() == 10);
        json::lemma_lookup_at(m, "title"@, 4);
        json::lemma_lookup_at(m, "chapter_id"@, 0);
        rest.len() as int
    }
}

/// Every candidate comes from a chapter of the file, has its times and the type
/// that its title names.
pub proof fn candidates_come_from_chapters(
    media_file_id: Seq<char>,
    chapters: Seq<Chapter>,
    duration_seconds: Option<i32>,
    at: int,
) -> (k: int)
    requires
        0 <= at < chapter_candidates(media_file_id, chapters, duration_seconds).len(),
    ensures
        0 <= k < chapters.len(),
        at <= k,
        title_of(chapters[k]) is Some,
        chapters[k].start_time is Some,
        chapters[k].end_time is Some,
        ({
            let c = chapter_candidates(media_file_id, chapters, duration_seconds)[at];
            let start = number::finite_of(text::trim_seq(chapters[k].start_time->0@));
            let end = number::finite_of(text::trim_seq(chapters[k].end_time->0@));
            &&& c.media_file_id == media_file_id
            &&& Some(c.segment_type) == type_of_title(title_of(chapters[k])->0)
            &&& start is Some && c.start == Quantity::Micros(start->0)
            &&& end is Some && c.end == Quantity::Micros(end->0)
        }),
    decreases chapters.len(),
{
    let rest = chapter_candidates(media_file_id, chapters.drop_last(), duration_seconds);
    if at < rest.len() {
        let k = candidates_come_from_chapters(
            media_file_id,
            chapters.drop_last(),
            duration_seconds,
            at,
        );
        assert(chapters.drop_last()[k] == chapters[k]);
        k
    } else {
        lemma_no_more_than_chapters(media_file_id, chapters.drop_last(), duration_seconds);
        chapters.len() - 1
    }
}

proof fn lemma_no_more_than_chapters(
    media_file_id: Seq<char>,
    chapters: Seq<Chapter>,
    duration_seconds: Option<i32>,
)
    ensures
        chapter_candidates(media_file_id, chapters, duration_seconds).len() <= chapters.len(),
    decreases chapters.len(),
{
    if chapters.len() > 0 {
        lemma_no_more_than_chapters(media_file_id, chapters.drop_last(), duration_seconds);
    }
}

/// The whole seconds of a kept length lie within half a second of it.
pub proof fn whole_seconds_are_near(micros: i64)
    ensures
        -2_000_000_000_000_000 <= micros <= 2_000_000_000_000_000 ==> -500_000 <= whole_seconds(
            micros,
        ) * 1_000_000 - micros <= 500_000,
        -0x8000_0000 <= whole_seconds(micros) <= 0x7fff_ffff,
{
}

/// Each candidate that is submitted counts once, and as accepted where it was accepted and
/// as rejected otherwise.
pub proof fn submitted_candidates_count_once(state: &str)
    ensures
        forall|s: &mut ChapterIngestionSummary|
            (*s).candidates_submitted < usize::MAX && (*s).candidates_accepted < usize::MAX
                && (*s).candidates_rejected < usize::MAX && #[trigger] call_ensures(
                count_chapter_candidate,
                (s, state),
                (),
            ) ==> {
                &&& (*final(s)).candidates_submitted == (*s).candidates_submitted + 1
                &&& state@ == "accepted"@ ==> (*final(s)).candidates_accepted
                    == (*s).candidates_accepted + 1 && (*final(s)).candidates_rejected
                    == (*s).candidates_rejected
                &&& state@ != "accepted"@ ==> (*final(s)).candidates_accepted
                    == (*s).candidates_accepted && (*final(s)).candidates_rejected
                    == (*s).candidates_rejected + 1
                &&& (*final(s)).active_segments == (*s).active_segments
            },
{
}

} // verus!
