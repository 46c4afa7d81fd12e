//! The segments in the responses of the built-in providers.

use vstd::prelude::*;
use crate::candidate::{self, clamp_unit, SegmentCandidateInput, Submission};
use crate::consts;
use crate::context::{MediaContext, ProviderMediaContext};
use crate::json::{self, opt_text_value, text_value, Json, JsonNumber, JsonValue};
use crate::normalize::{self, aniskip_segment_type};
use crate::quantity::Quantity;
use crate::reading::{self, as_array, find_first_member, provider_seconds};
use crate::settings::{self, whole_value};
use crate::text;

verus! {

/// The list under the first of some names that holds one.
pub open spec fn first_array(j: Json, keys: Seq<Seq<char>>) -> Seq<Json>
    decreases keys.len(),
{
    if keys.len() == 0 {
        Seq::empty()
    } else {
        let here = match json::json_get(j, keys[0]) {
            Some(v) => reading::json_array(v),
            None => None,
        };
        match here {
            Some(a) => a,
            None => first_array(j, keys.drop_first()),
        }
    }
}

/// The list of a response: the response itself, or the one that it names.
pub open spec fn segment_array(j: Json) -> Seq<Json> {
    match reading::json_array(j) {
        Some(a) => a,
        None => first_array(j, seq!["segments"@, "results"@, "data"@]),
    }
}

/// The list of a response: the response itself, or the one that it names.
pub fn provider_segment_array<'a>(response: &'a JsonValue) -> (r: Option<&'a Vec<JsonValue>>)
    ensures
        match r {
            Some(a) => segment_array(response@) == reading::elements_of(a@),
            None => segment_array(response@).len() == 0,
        },
{
    if let Some(a) = as_array(response) {
        return Some(a);
    }
    let keys: Vec<&str> = vec!["segments", "results", "data"];
    let ghost all = reading::names(keys@);
    proof {
        assert(all =~= seq!["segments"@, "results"@, "data"@]);
        assert(all.skip(0) =~= all);
    }
    let mut i: usize = 0;
    while i < keys.len()
        invariant
            i <= keys@.len(),
            all == reading::names(keys@),
            reading::json_array(response@) is None,
            segment_array(response@) == first_array(response@, all.skip(i as int)),
        decreases keys@.len() - i,
    {
        proof {
            assert(all.skip(i as int)[0] == keys@[i as int]@);
            assert(all.skip(i as int).drop_first() =~= all.skip(i + 1));
        }
        match response.get(keys[i]) {
            Some(v) => {
                if let Some(a) = as_array(v) {
                    return Some(a);
                }
            },
            None => {},
        }
        i += 1;
    }
    None
}

/// A type of segment that a provider may name; a custom one is for no provider to
/// name.
pub open spec fn is_provider_type(s: Seq<char>) -> bool {
    s == "intro"@ || s == "recap"@ || s == "preview"@ || s == "credits"@ || s == "outro"@
}

/// The segment type that a provider's word stands for.
pub open spec fn mapped_type(word: Seq<char>) -> Option<Seq<char>> {
    let s = text::snake_seq(word);
    if s == "opening"@ || s == "op"@ {
        Some("intro"@)
    } else if s == "ending"@ || s == "ed"@ {
        Some("outro"@)
    } else if s == "credit"@ {
        Some("credits"@)
    } else if is_provider_type(s) {
        Some(s)
    } else {
        None
    }
}

/// The segment type that an entry of a response names.
pub open spec fn type_in(j: Json) -> Option<Seq<char>> {
    match reading::first_member(j, seq!["segment_type"@, "segmentType"@, "type"@]) {
        Some(v) => match json::json_text(v) {
            Some(word) => mapped_type(word),
            None => None,
        },
        None => None,
    }
}

fn map_type(word: &str) -> (r: Option<String>)
    ensures
        crate::error::opt_text(r) == mapped_type(word@),
{
    let normal = text::to_snake(word);
    let s = normal.as_str();
    if text::str_eq(s, "opening") || text::str_eq(s, "op") {
        Some("intro".to_owned())
    } else if text::str_eq(s, "ending") || text::str_eq(s, "ed") {
        Some("outro".to_owned())
    } else if text::str_eq(s, "credit") {
        Some("credits".to_owned())
    } else if text::str_eq(s, "intro") || text::str_eq(s, "recap") || text::str_eq(s, "preview")
        || text::str_eq(s, "credits") || text::str_eq(s, "outro") {
        Some(normal)
    } else {
        None
    }
}

/// The segment type that an entry of a response names.
pub fn provider_segment_type(value: &JsonValue) -> (r: Option<String>)
    ensures
        crate::error::opt_text(r) == type_in(value@),
{
    let keys: Vec<&str> = vec!["segment_type", "segmentType", "type"];
    proof {
        assert(reading::names(keys@) =~= seq!["segment_type"@, "segmentType"@, "type"@]);
    }
    match find_first_member(value, &keys) {
        Some(v) => match v.as_text() {
            Some(word) => map_type(word.as_str()),
            None => None,
        },
        None => None,
    }
}

/// How sure a provider is of an entry, in millionths.
pub open spec fn confidence_in(j: Json) -> Option<i64> {
    match json::json_get_either(j, "confidence"@, "score"@) {
        Some(v) => match json::json_micros(v) {
            Some(n) => Some(candidate::unit_clamp(n as int) as i64),
            None => None,
        },
        None => None,
    }
}

/// How sure a provider is of an entry, in millionths.
pub fn provider_confidence(value: &JsonValue) -> (r: Option<i64>)
    ensures
        r == confidence_in(value@),
{
    match value.get_either("confidence", "score") {
        Some(v) => match v.as_micros() {
            Some(n) => Some(clamp_unit(n)),
            None => None,
        },
        None => None,
    }
}

/// The identifier of an entry.
pub open spec fn id_in(j: Json) -> Option<Json> {
    reading::first_member(j, seq!["id"@, "segment_id"@, "segmentId"@])
}

/// The identifier of an entry.
pub fn provider_id_from_value(value: &JsonValue) -> (r: Option<JsonValue>)
    ensures
        json::opt_value(r) == id_in(value@),
{
    let keys: Vec<&str> = vec!["id", "segment_id", "segmentId"];
    proof {
        assert(reading::names(keys@) =~= seq!["id"@, "segment_id"@, "segmentId"@]);
    }
    match find_first_member(value, &keys) {
        Some(v) => Some(v.dup()),
        None => None,
    }
}

/// The entries under a name that is itself a segment type.
pub open spec fn typed_entries(j: Json, key: Seq<char>) -> Seq<(Option<Seq<char>>, Json)> {
    match json::json_get(j, key) {
        None => Seq::empty(),
        Some(Json::Null) => Seq::empty(),
        Some(Json::Array(a)) => a.map_values(|v: Json| (Some(key), v)),
        Some(v) => seq![(Some(key), v)],
    }
}

/// The entries of a response of TheIntroDB, each with the type of the name that
/// it stands under.
pub open spec fn entries_of(j: Json) -> Seq<(Option<Seq<char>>, Json)> {
    segment_array(j).map_values(|v: Json| (None::<Seq<char>>, v)) + typed_entries(j, "intro"@)
        + typed_entries(j, "recap"@) + typed_entries(j, "outro"@) + typed_entries(j, "credits"@)
}

/// Some entries, as mathematical values.
pub open spec fn entry_views(v: Seq<(Option<String>, &JsonValue)>) -> Seq<(Option<Seq<char>>, Json)> {
    v.map_values(|e: (Option<String>, &JsonValue)| (crate::error::opt_text(e.0), e.1@))
}

fn push_typed<'a>(out: &mut Vec<(Option<String>, &'a JsonValue)>, response: &'a JsonValue, key: &str)
    ensures
        entry_views(final(out)@) == entry_views(old(out)@) + typed_entries(response@, key@),
{
    let ghost before = entry_views(out@);
    match response.get(key) {
        Some(v) => match v {
            JsonValue::Null => {
                proof {
                    assert(entry_views(out@) =~= before + typed_entries(response@, key@));
                }
            },
            JsonValue::Array(a) => {
                let ghost all = reading::elements_of(a@).map_values(|v: Json| (Some(key@), v));
                proof {
                    json::lemma_view_array(*a, reading::elements_of(a@));
                    assert(all.take(0) =~= Seq::empty());
                    assert(before + all.take(0) =~= before);
                }
                let mut i: usize = 0;
                while i < a.len()
                    invariant
                        i <= a@.len(),
                        all == reading::elements_of(a@).map_values(|v: Json| (Some(key@), v)),
                        entry_views(out@) == before + all.take(i as int),
                    decreases a@.len() - i,
                {
                    let ghost now = entry_views(out@);
                    out.push((Some(key.to_owned()), &a[i]));
                    proof {
                        assert(entry_views(out@) =~= now.push(all[i as int]));
                        assert(before + all.take(i + 1) =~= now.push(all[i as int]));
                    }
                    i += 1;
                }
                proof {
                    assert(all.take(a@.len() as int) =~= all);
                }
            },
            _ => {
                out.push((Some(key.to_owned()), v));
                proof {
                    assert(entry_views(out@) =~= before + typed_entries(response@, key@));
                }
            },
        },
        None => {
            proof {
                assert(entry_views(out@) =~= before + typed_entries(response@, key@));
            }
        },
    }
}

/// The entries of a response of TheIntroDB, each with the type of the name that
/// it stands under.
pub fn theintrodb_segment_entries<'a>(response: &'a JsonValue) -> (r: Vec<
    (Option<String>, &'a JsonValue),
>)
    ensures
        entry_views(r@) == entries_of(response@),
{
    let mut out: Vec<(Option<String>, &'a JsonValue)> = Vec::new();
    let ghost listed = segment_array(response@).map_values(|v: Json| (None::<Seq<char>>, v));
    match provider_segment_array(response) {
        Some(a) => {
            proof {
                assert(entry_views(out@) =~= listed.take(0));
            }
            let mut i: usize = 0;
            while i < a.len()
                invariant
                    i <= a@.len(),
                    listed == reading::elements_of(a@).map_values(
                        |v: Json| (None::<Seq<char>>, v),
                    ),
                    entry_views(out@) == listed.take(i as int),
                decreases a@.len() - i,
            {
                let ghost now = entry_views(out@);
                out.push((None, &a[i]));
                proof {
                    assert(entry_views(out@) =~= now.push(listed[i as int]));
                    assert(listed.take(i + 1) =~= now.push(listed[i as int]));
                }
                i += 1;
            }
            proof {
                assert(listed.take(a@.len() as int) =~= listed);
            }
        },
        None => {
            proof {
                assert(entry_views(out@) =~= listed);
            }
        },
    }
    push_typed(&mut out, response, "intro");
    push_typed(&mut out, response, "recap");
    push_typed(&mut out, response, "outro");
    push_typed(&mut out, response, "credits");
    out
}

/// The JSON form of a number that may be absent.
pub open spec fn opt_number_json(n: Option<i32>) -> Json {
    match n {
        Some(n) => settings::whole_json(n as i64),
        None => Json::Null,
    }
}

/// The JSON form of a number that may be absent.
pub fn opt_number_value(n: Option<i32>) -> (v: JsonValue)
    ensures
        v@ == opt_number_json(n),
{
    match n {
        Some(n) => whole_value(n as i64),
        None => JsonValue::Null,
    }
}

/// What a candidate of TheIntroDB says of its source.
pub open spec fn theintrodb_payload(c: MediaContext, entry: Json) -> Json {
    Json::Object(
        seq![
            ("episode_number"@, opt_number_json(c.episode_number)),
            ("imdb_id"@, json::opt_text_json(c.imdb_id)),
            ("provider"@, Json::Text(consts::PROVIDER_THEINTRODB@)),
            ("provider_segment_id"@, json::json_or_null(id_in(entry))),
            ("raw"@, entry),
            ("season_number"@, opt_number_json(c.season_number)),
            ("tmdb_id"@, json::opt_text_json(c.tmdb_id)),
            ("tvdb_id"@, json::opt_text_json(c.tvdb_id)),
        ],
    )
}

fn theintrodb_payload_value(context: &ProviderMediaContext, entry: &JsonValue) -> (v: JsonValue)
    ensures
        v@ == theintrodb_payload(context@, entry@),
{
    let id = provider_id_from_value(entry);
    let mut o: Vec<(String, JsonValue)> = Vec::new();
    o.push(("episode_number".to_owned(), opt_number_value(context.episode_number)));
    o.push(("imdb_id".to_owned(), opt_text_value(&context.imdb_id)));
    o.push(("provider".to_owned(), text_value(consts::PROVIDER_THEINTRODB)));
    o.push(("provider_segment_id".to_owned(), json::value_or_null(&id)));
    o.push(("raw".to_owned(), entry.dup()));
    o.push(("season_number".to_owned(), opt_number_value(context.season_number)));
    o.push(("tmdb_id".to_owned(), opt_text_value(&context.tmdb_id)));
    o.push(("tvdb_id".to_owned(), opt_text_value(&context.tvdb_id)));
    proof {
        json::lemma_view_object(o);
        assert(json::members_of(o@) =~= theintrodb_payload(context@, entry@)->Object_0);
    }
    JsonValue::Object(o)
}

/// The candidate in an entry of TheIntroDB: its own type, else that of the name
/// it stands under, with a start and an end.
pub open spec fn theintrodb_candidate(c: MediaContext, entry: (Option<Seq<char>>, Json)) -> Option<
    Submission,
> {
    let kind = match type_in(entry.1) {
        Some(t) => Some(t),
        None => entry.0,
    };
    let start = reading::first_time(entry.1, seq!["start_sec"@, "start_seconds"@, "start"@]);
    let end = reading::first_time(entry.1, seq!["end_sec"@, "end_seconds"@, "end"@]);
    if kind is None || start is None || end is None {
        None
    } else {
        Some(
            Submission {
                media_file_id: c.media_file_id,
                item_type: Some(c.item_type),
                item_id: Some(c.item_id),
                segment_type: kind->0,
                start: Quantity::Micros(start->0),
                end: Quantity::Micros(end->0),
                provider_kind: consts::PROVIDER_THEINTRODB@,
                provider_id: "introdb_segments"@,
                provider_version: Some("1"@),
                confidence: Quantity::Micros(
                    match confidence_in(entry.1) {
                        Some(n) => n,
                        None => 900_000,
                    },
                ),
                identity_strength: "external_id_exact"@,
                source_payload: Some(theintrodb_payload(c, entry.1)),
            },
        )
    }
}

/// The candidates in some entries of TheIntroDB.
pub open spec fn theintrodb_candidates(c: MediaContext, entries: Seq<(Option<Seq<char>>, Json)>) -> Seq<
    Submission,
>
    decreases entries.len(),
{
    if entries.len() == 0 {
        Seq::empty()
    } else {
        match theintrodb_candidate(c, entries.last()) {
            Some(s) => theintrodb_candidates(c, entries.drop_last()).push(s),
            None => theintrodb_candidates(c, entries.drop_last()),
        }
    }
}

fn theintrodb_input(
    context: &ProviderMediaContext,
    fallback: &Option<String>,
    value: &JsonValue,
) -> (r: Option<SegmentCandidateInput>)
    ensures
        match r {
            Some(i) => theintrodb_candidate(context@, (crate::error::opt_text(*fallback), value@))
                == Some(i@),
            None => theintrodb_candidate(context@, (crate::error::opt_text(*fallback), value@)) is None,
        },
{
    let start_keys: Vec<&str> = vec!["start_sec", "start_seconds", "start"];
    let end_keys: Vec<&str> = vec!["end_sec", "end_seconds", "end"];
    proof {
        assert(reading::names(start_keys@) =~= seq!["start_sec"@, "start_seconds"@, "start"@]);
        assert(reading::names(end_keys@) =~= seq!["end_sec"@, "end_seconds"@, "end"@]);
    }
    let segment_type: String = match provider_segment_type(value) {
        Some(t) => t,
        None => match fallback {
            Some(t) => t.clone(),
            None => {
                return None;
            },
        },
    };
    let start: i64 = match provider_seconds(value, &start_keys) {
        Some(t) => t,
        None => {
            return None;
        },
    };
    let end: i64 = match provider_seconds(value, &end_keys) {
        Some(t) => t,
        None => {
            return None;
        },
    };
    let confidence: i64 = match provider_confidence(value) {
        Some(n) => n,
        None => 900_000,
    };
    Some(
        SegmentCandidateInput {
            media_file_id: context.media_file_id.clone(),
            item_type: Some(context.item_type.clone()),
            item_id: Some(context.item_id.clone()),
            segment_type,
            start: Quantity::Micros(start),
            end: Quantity::Micros(end),
            provider_kind: consts::PROVIDER_THEINTRODB.to_owned(),
            provider_id: "introdb_segments".to_owned(),
            provider_version: Some("1".to_owned()),
            confidence: Quantity::Micros(confidence),
            identity_strength: "external_id_exact".to_owned(),
            source_payload: Some(theintrodb_payload_value(context, value)),
        },
    )
}

/// The candidates in a response of TheIntroDB.
pub fn theintrodb_response_to_candidates(context: &ProviderMediaContext, response: &JsonValue) -> (r:
    Vec<SegmentCandidateInput>)
    ensures
        candidate::submissions(r@) == theintrodb_candidates(context@, entries_of(response@)),
{
    let entries = theintrodb_segment_entries(response);
    let ghost all = entry_views(entries@);
    let mut out: Vec<SegmentCandidateInput> = Vec::new();
    let mut i: usize = 0;
    proof {
        assert(all.take(0) =~= Seq::empty());
        assert(candidate::submissions(out@) =~= Seq::empty());
    }
    while i < entries.len()
        invariant
            i <= entries@.len(),
            all == entry_views(entries@),
            candidate::submissions(out@) == theintrodb_candidates(context@, all.take(i as int)),
        decreases entries@.len() - i,
    {
        proof {
            assert(all.take(i + 1).drop_last() =~= all.take(i as int));
            assert(all.take(i + 1).last() == all[i as int]);
        }
        let ghost now = candidate::submissions(out@);
        match theintrodb_input(context, &entries[i].0, entries[i].1) {
            Some(input) => {
                out.push(input);
                proof {
                    assert(candidate::submissions(out@) =~= now.push(input@));
                }
            },
            None => {},
        }
        i += 1;
    }
    proof {
        assert(all.take(entries@.len() as int) =~= all);
    }
    out
}

/// What a candidate of AniSkip says of its source.
pub open spec fn aniskip_payload(c: MediaContext, entry: Json, skip_type: Seq<char>) -> Json {
    Json::Object(
        seq![
            ("absolute_episode_number"@, opt_number_json(c.absolute_episode_number)),
            ("anilist_id"@, json::opt_text_json(c.anilist_id)),
            (
                "episode_length"@,
                json::json_or_null(json::json_get_either(entry, "episodeLength"@, "episode_length"@)),
            ),
            ("episode_number"@, opt_number_json(c.episode_number)),
            ("mal_id"@, json::opt_text_json(c.mal_id)),
            ("provider"@, Json::Text(consts::PROVIDER_ANISKIP@)),
            ("raw"@, entry),
            (
                "skip_id"@,
                json::json_or_null(json::json_get_either(entry, "skipId"@, "skip_id"@)),
            ),
            ("skip_type"@, Json::Text(skip_type)),
        ],
    )
}

fn either_or_null(value: &JsonValue, a: &str, b: &str) -> (v: JsonValue)
    ensures
        v@ == json::json_or_null(json::json_get_either(value@, a@, b@)),
{
    match value.get_either(a, b) {
        Some(v) => v.dup(),
        None => JsonValue::Null,
    }
}

fn aniskip_payload_value(context: &ProviderMediaContext, entry: &JsonValue, skip_type: &str) -> (v:
    JsonValue)
    ensures
        v@ == aniskip_payload(context@, entry@, skip_type@),
{
    let mut o: Vec<(String, JsonValue)> = Vec::new();
    o.push(
        ("absolute_episode_number".to_owned(), opt_number_value(context.absolute_episode_number)),
    );
    o.push(("anilist_id".to_owned(), opt_text_value(&context.anilist_id)));
    o.push(("episode_length".to_owned(), either_or_null(entry, "episodeLength", "episode_length")));
    o.push(("episode_number".to_owned(), opt_number_value(context.episode_number)));
    o.push(("mal_id".to_owned(), opt_text_value(&context.mal_id)));
    o.push(("provider".to_owned(), text_value(consts::PROVIDER_ANISKIP)));
    o.push(("raw".to_owned(), entry.dup()));
    o.push(("skip_id".to_owned(), either_or_null(entry, "skipId", "skip_id")));
    o.push(("skip_type".to_owned(), text_value(skip_type)));
    proof {
        json::lemma_view_object(o);
        assert(json::members_of(o@) =~= aniskip_payload(context@, entry@, skip_type@)->Object_0);
    }
    JsonValue::Object(o)
}

/// The candidate in an entry of AniSkip: it names a known kind of skip, and a
/// start and an end, in an interval or by itself.
pub open spec fn aniskip_candidate(c: MediaContext, entry: Json) -> Option<Submission> {
    let word = match json::json_get_either(entry, "skipType"@, "skip_type"@) {
        Some(v) => json::json_text(v),
        None => None,
    };
    let kind = match word {
        Some(w) => normalize::aniskip_type_of(w),
        None => None,
    };
    let interval = match json::json_get(entry, "interval"@) {
        Some(v) => v,
        None => entry,
    };
    let start = reading::first_time(interval, seq!["startTime"@, "start_time"@, "start"@]);
    let end = reading::first_time(interval, seq!["endTime"@, "end_time"@, "end"@]);
    if kind is None || start is None || end is None {
        None
    } else {
        Some(
            Submission {
                media_file_id: c.media_file_id,
                item_type: Some(c.item_type),
                item_id: Some(c.item_id),
                segment_type: kind->0,
                start: Quantity::Micros(start->0),
                end: Quantity::Micros(end->0),
                provider_kind: consts::PROVIDER_ANISKIP@,
                provider_id: "aniskip_skip_times"@,
                provider_version: Some("1"@),
                confidence: Quantity::Micros(880_000),
                identity_strength: "external_id_episode"@,
                source_payload: Some(aniskip_payload(c, entry, word->0)),
            },
        )
    }
}

/// The candidates in some entries of AniSkip.
pub open spec fn aniskip_candidates(c: MediaContext, entries: Seq<Json>) -> Seq<Submission>
    decreases entries.len(),
{
    if entries.len() == 0 {
        Seq::empty()
    } else {
        match aniskip_candidate(c, entries.last()) {
            Some(s) => aniskip_candidates(c, entries.drop_last()).push(s),
            None => aniskip_candidates(c, entries.drop_last()),
        }
    }
}

fn aniskip_input(context: &ProviderMediaContext, value: &JsonValue) -> (r: Option<
    SegmentCandidateInput,
>)
    ensures
        match r {
            Some(i) => aniskip_candidate(context@, value@) == Some(i@),
            None => aniskip_candidate(context@, value@) is None,
        },
{
    let start_keys: Vec<&str> = vec!["startTime", "start_time", "start"];
    let end_keys: Vec<&str> = vec!["endTime", "end_time", "end"];
    proof {
        assert(reading::names(start_keys@) =~= seq!["startTime"@, "start_time"@, "start"@]);
        assert(reading::names(end_keys@) =~= seq!["endTime"@, "end_time"@, "end"@]);
    }
    let skip_type: &String = match value.get_either("skipType", "skip_type") {
        Some(v) => match v.as_text() {
            Some(w) => w,
            None => {
                return None;
            },
        },
        None => {
            return None;
        },
    };
    let segment_type = match aniskip_segment_type(skip_type.as_str()) {
        Some(t) => t,
        None => {
            return None;
        },
    };
    let interval: &JsonValue = match value.get("interval") {
        Some(v) => v,
        None => value,
    };
    let start: i64 = match provider_seconds(interval, &start_keys) {
        Some(t) => t,
        None => {
            return None;
        },
    };
    let end: i64 = match provider_seconds(interval, &end_keys) {
        Some(t) => t,
        None => {
            return None;
        },
    };
    Some(
        SegmentCandidateInput {
            media_file_id: context.media_file_id.clone(),
            item_type: Some(context.item_type.clone()),
            item_id: Some(context.item_id.clone()),
            segment_type: segment_type.to_owned(),
            start: Quantity::Micros(start),
            end: Quantity::Micros(end),
            provider_kind: consts::PROVIDER_ANISKIP.to_owned(),
            provider_id: "aniskip_skip_times".to_owned(),
            provider_version: Some("1".to_owned()),
            confidence: Quantity::Micros(880_000),
            identity_strength: "external_id_episode".to_owned(),
            source_payload: Some(aniskip_payload_value(context, value, skip_type.as_str())),
        },
    )
}

/// The entries of a response of AniSkip.
pub open spec fn aniskip_entries(j: Json) -> Seq<Json> {
    match json::json_get(j, "results"@) {
        Some(v) => match reading::json_array(v) {
            Some(a) => a,
            None => Seq::empty(),
        },
        None => Seq::empty(),
    }
}

/// The candidates in a response of AniSkip.
pub fn aniskip_response_to_candidates(context: &ProviderMediaContext, response: &JsonValue) -> (r:
    Vec<SegmentCandidateInput>)
    ensures
        candidate::submissions(r@) == aniskip_candidates(context@, aniskip_entries(response@)),
{
    let mut out: Vec<SegmentCandidateInput> = Vec::new();
    proof {
        assert(candidate::submissions(out@) =~= Seq::empty());
    }
    let entries: &Vec<JsonValue> = match response.get("results") {
        Some(v) => match as_array(v) {
            Some(a) => a,
            None => {
                return out;
            },
        },
        None => {
            return out;
        },
    };
    let ghost all = reading::elements_of(entries@);
    let mut i: usize = 0;
    proof {
        assert(all.take(0) =~= Seq::empty());
    }
    while i < entries.len()
        invariant
            i <= entries@.len(),
            all == reading::elements_of(entries@),
            candidate::submissions(out@) == aniskip_candidates(context@, all.take(i as int)),
        decreases entries@.len() - i,
    {
        proof {
            assert(all.take(i + 1).drop_last() =~= all.take(i as int));
            assert(all.take(i + 1).last() == all[i as int]);
        }
        let ghost now = candidate::submissions(out@);
        match aniskip_input(context, &entries[i]) {
            Some(input) => {
                out.push(input);
                proof {
                    assert(candidate::submissions(out@) =~= now.push(input@));
                }
            },
            None => {},
        }
        i += 1;
    }
    proof {
        assert(all.take(entries@.len() as int) =~= all);
    }
    out
}

/// The candidates in a response of a built-in provider; no other response has
/// any.
pub open spec fn response_candidates(provider_kind: Seq<char>, c: MediaContext, response: Json) -> Seq<
    Submission,
> {
    if provider_kind == consts::PROVIDER_THEINTRODB@ {
        theintrodb_candidates(c, entries_of(response))
    } else if provider_kind == consts::PROVIDER_ANISKIP@ {
        aniskip_candidates(c, aniskip_entries(response))
    } else {
        Seq::empty()
    }
}

/// The candidates in a response of a built-in provider.
pub fn provider_response_to_candidates(
    provider_kind: &str,
    context: &ProviderMediaContext,
    response: &JsonValue,
) -> (r: Vec<SegmentCandidateInput>)
    ensures
        candidate::submissions(r@) == response_candidates(provider_kind@, context@, response@),
{
    if text::str_eq(provider_kind, consts::PROVIDER_THEINTRODB) {
        theintrodb_response_to_candidates(context, response)
    } else if text::str_eq(provider_kind, consts::PROVIDER_ANISKIP) {
        aniskip_response_to_candidates(context, response)
    } else {
        let out: Vec<SegmentCandidateInput> = Vec::new();
        proof {
            assert(candidate::submissions(out@) =~= Seq::empty());
        }
        out
    }
}

/// Every candidate of a built-in provider is of the file that was asked about,
/// comes from that provider, and has a type that a provider may name, a finite start
/// and end, and a confidence between nothing and all.
pub proof fn response_candidates_are_about_the_file(
    provider_kind: Seq<char>,
    c: MediaContext,
    response: Json,
    i: int,
)
    requires
        0 <= i < response_candidates(provider_kind, c, response).len(),
    ensures
        ({
            let s = response_candidates(provider_kind, c, response)[i];
            &&& s.media_file_id == c.media_file_id
            &&& s.item_type == Some(c.item_type)
            &&& s.item_id == Some(c.item_id)
            &&& s.provider_kind == provider_kind
            &&& is_provider_type(s.segment_type)
            &&& s.start is Micros
            &&& s.end is Micros
            &&& s.confidence matches Quantity::Micros(n) && 0 <= n <= 1_000_000
        }),
{
    if provider_kind == consts::PROVIDER_THEINTRODB@ {
        lemma_entry_types(response);
        lemma_theintrodb_sound(c, entries_of(response), i);
    } else {
        lemma_aniskip_sound(c, aniskip_entries(response), i);
    }
}

/// What is kept where a provider knows no segments: it says so and names none.
pub open spec fn nothing_found() -> Json {
    Json::Object(seq![("found"@, Json::Bool(false))])
}

/// What is kept where a provider knows no segments has no candidates.
pub proof fn nothing_found_has_no_candidates(provider_kind: Seq<char>, c: MediaContext)
    ensures
        response_candidates(provider_kind, c, nothing_found()).len() == 0,
{
    reveal_strlit("found");
    reveal_strlit("segments");
    reveal_strlit("results");
    reveal_strlit("data");
    reveal_strlit("intro");
    reveal_strlit("recap");
    reveal_strlit("outro");
    reveal_strlit("credits");
    assert("found"@[0] == 'f' && "intro"@[0] == 'i' && "recap"@[0] == 'r' && "outro"@[0] == 'o');
    assert("found"@.len() == 5 && "segments"@.len() == 8 && "results"@.len() == 7 && "data"@.len()
        == 4 && "credits"@.len() == 7);
    assert forall|key: Seq<char>| key != "found"@ implies json::json_get(
        nothing_found(),
        key,
    ) is None by {
        reveal_with_fuel(json::lookup, 2);
    }
    let keys = seq!["segments"@, "results"@, "data"@];
    assert(keys.drop_first()[0] == "results"@);
    assert(keys.drop_first().drop_first()[0] == "data"@);
    reveal_with_fuel(first_array, 4);
    assert(segment_array(nothing_found()) =~= Seq::empty());
    assert(entries_of(nothing_found()) =~= Seq::empty());
}

spec fn typed_soundly(e: (Option<Seq<char>>, Json)) -> bool {
    e.0 is Some ==> is_provider_type(e.0->0)
}

proof fn lemma_entry_types(response: Json)
    ensures
        forall|i: int| 0 <= i < entries_of(response).len() ==> typed_soundly(
            #[trigger] entries_of(response)[i],
        ),
{
}

spec fn submission_sound(s: Submission, c: MediaContext) -> bool {
    &&& s.media_file_id == c.media_file_id
    &&& s.item_type == Some(c.item_type)
    &&& s.item_id == Some(c.item_id)
    &&& is_provider_type(s.segment_type)
    &&& s.start is Micros
    &&& s.end is Micros
    &&& s.confidence matches Quantity::Micros(n) && 0 <= n <= 1_000_000
}

proof fn lemma_theintrodb_sound(c: MediaContext, entries: Seq<(Option<Seq<char>>, Json)>, i: int)
    requires
        forall|k: int| 0 <= k < entries.len() ==> typed_soundly(#[trigger] entries[k]),
        0 <= i < theintrodb_candidates(c, entries).len(),
    ensures
        submission_sound(theintrodb_candidates(c, entries)[i], c),
        theintrodb_candidates(c, entries)[i].provider_kind == consts::PROVIDER_THEINTRODB@,
    decreases entries.len(),
{
    let rest = entries.drop_last();
    if i < theintrodb_candidates(c, rest).len() {
        assert forall|k: int| 0 <= k < rest.len() implies typed_soundly(#[trigger] rest[k]) by {
            assert(typed_soundly(entries[k]));
        }
        lemma_theintrodb_sound(c, rest, i);
    } else {
        assert(typed_soundly(entries[entries.len() - 1]));
    }
}

proof fn lemma_aniskip_sound(c: MediaContext, entries: Seq<Json>, i: int)
    requires
        0 <= i < aniskip_candidates(c, entries).len(),
    ensures
        submission_sound(aniskip_candidates(c, entries)[i], c),
        aniskip_candidates(c, entries)[i].provider_kind == consts::PROVIDER_ANISKIP@,
    decreases entries.len(),
{
    let rest = entries.drop_last();
    if i < aniskip_candidates(c, rest).len() {
        lemma_aniskip_sound(c, rest, i);
    }
}

proof fn lemma_entry_found(c: MediaContext, entries: Seq<(Option<Seq<char>>, Json)>, i: int) -> (at:
    int)
    requires
        0 <= i < entries.len(),
        theintrodb_candidate(c, entries[i]) is Some,
    ensures
        0 <= at < theintrodb_candidates(c, entries).len(),
        theintrodb_candidates(c, entries)[at] == theintrodb_candidate(c, entries[i])->0,
    decreases entries.len(),
{
    let rest = entries.drop_last();
    if i < rest.len() {
        assert(rest[i] == entries[i]);
        lemma_entry_found(c, rest, i)
    } else {
        theintrodb_candidates(c, rest).len() as int
    }
}

/// Where the entries under a name that is a segment type stand.
proof fn lemma_typed_place(j: Json, k: Seq<char>, i: int) -> (at: int)
    requires
        k == "intro"@ || k == "recap"@ || k == "outro"@ || k == "credits"@,
        0 <= i < typed_entries(j, k).len(),
    ensures
        0 <= at < entries_of(j).len(),
        entries_of(j)[at] == typed_entries(j, k)[i],
{
    let n = segment_array(j).len() as int;
    let a = typed_entries(j, "intro"@).len() as int;
    let b = typed_entries(j, "recap"@).len() as int;
    let d = typed_entries(j, "outro"@).len() as int;
    if k == "intro"@ {
        n + i
    } else if k == "recap"@ {
        n + a + i
    } else if k == "outro"@ {
        n + a + b + i
    } else {
        n + a + b + d + i
    }
}

/// A response of TheIntroDB names segments by their type: where it has a member
/// intro, recap, outro or credits that is an object with a start and an end and no
/// type of its own, there is a candidate of that type with that start and end.
pub proof fn members_by_type_are_candidates(
    c: MediaContext,
    response: Json,
    k: Seq<char>,
    entry: Json,
    start: i64,
    end: i64,
) -> (at: int)
    requires
        k == "intro"@ || k == "recap"@ || k == "outro"@ || k == "credits"@,
        json::json_get(response, k) == Some(entry),
        entry is Object,
        reading::first_time(entry, seq!["start_sec"@, "start_seconds"@, "start"@]) == Some(start),
        reading::first_time(entry, seq!["end_sec"@, "end_seconds"@, "end"@]) == Some(end),
        json::json_get(entry, "segment_type"@) is None,
        json::json_get(entry, "segmentType"@) is None,
        json::json_get(entry, "type"@) is None,
    ensures
        ({
            let found = response_candidates("theintrodb"@, c, response);
            &&& 0 <= at < found.len()
            &&& found[at].segment_type == k
            &&& found[at].start == Quantity::Micros(start)
            &&& found[at].end == Quantity::Micros(end)
            &&& found[at].media_file_id == c.media_file_id
        }),
{
    let typed = typed_entries(response, k);
    assert(typed =~= seq![(Some(k), entry)]);
    let i = lemma_typed_place(response, k, 0);
    assert(entries_of(response)[i] == (Some(k), entry));
    lemma_untyped(entry);
    lemma_entry_found(c, entries_of(response), i)
}

/// The same holds of each element of a list under such a name.
pub proof fn lists_by_type_are_candidates(
    c: MediaContext,
    response: Json,
    k: Seq<char>,
    list: Seq<Json>,
    i: int,
    start: i64,
    end: i64,
) -> (at: int)
    requires
        k == "intro"@ || k == "recap"@ || k == "outro"@ || k == "credits"@,
        json::json_get(response, k) == Some(Json::Array(list)),
        0 <= i < list.len(),
        reading::first_time(list[i], seq!["start_sec"@, "start_seconds"@, "start"@]) == Some(start),
        reading::first_time(list[i], seq!["end_sec"@, "end_seconds"@, "end"@]) == Some(end),
        json::json_get(list[i], "segment_type"@) is None,
        json::json_get(list[i], "segmentType"@) is None,
        json::json_get(list[i], "type"@) is None,
    ensures
        ({
            let found = response_candidates("theintrodb"@, c, response);
            &&& 0 <= at < found.len()
            &&& found[at].segment_type == k
            &&& found[at].start == Quantity::Micros(start)
            &&& found[at].end == Quantity::Micros(end)
            &&& found[at].media_file_id == c.media_file_id
        }),
{
    let typed = typed_entries(response, k);
    assert(typed[i] == (Some(k), list[i]));
    let p = lemma_typed_place(response, k, i);
    lemma_untyped(list[i]);
    lemma_entry_found(c, entries_of(response), p)
}

proof fn lemma_untyped(entry: Json)
    requires
        json::json_get(entry, "segment_type"@) is None,
        json::json_get(entry, "segmentType"@) is None,
        json::json_get(entry, "type"@) is None,
    ensures
        type_in(entry) is None,
{
    let keys = seq!["segment_type"@, "segmentType"@, "type"@];
    assert(keys.drop_first() =~= seq!["segmentType"@, "type"@]);
    assert(keys.drop_first().drop_first() =~= seq!["type"@]);
    assert(keys.drop_first().drop_first().drop_first() =~= Seq::empty());
    reveal_with_fuel(reading::first_member, 4);
}

/// What a provider's word for a segment stands for, whatever its case and the
/// white space round it: an opening is an intro, an ending an outro, and a type
/// stands for itself; custom ones and all others stand for none.
pub proof fn words_stand_for_types(word: Seq<char>)
    ensures
        ({
            let s = text::replace_seq(text::lower_seq(text::trim_seq(word)), '-', '_');
            let kind = mapped_type(word);
            &&& kind == Some("intro"@) <==> s == "intro"@ || s == "opening"@ || s == "op"@
            &&& kind == Some("outro"@) <==> s == "outro"@ || s == "ending"@ || s == "ed"@
            &&& kind == Some("credits"@) <==> s == "credits"@ || s == "credit"@
            &&& kind == Some("recap"@) <==> s == "recap"@
            &&& kind == Some("preview"@) <==> s == "preview"@
            &&& kind is Some ==> kind == Some("intro"@) || kind == Some("outro"@) || kind == Some(
                "credits"@,
            ) || kind == Some("recap"@) || kind == Some("preview"@)
        }),
{
    lemma_words_differ();
}

proof fn lemma_words_differ()
    ensures
        "intro"@ != "opening"@,
        "intro"@ != "op"@,
        "intro"@ != "outro"@,
        "intro"@ != "ending"@,
        "intro"@ != "ed"@,
        "intro"@ != "credits"@,
        "intro"@ != "credit"@,
        "intro"@ != "recap"@,
        "intro"@ != "preview"@,
        "opening"@ != "op"@,
        "opening"@ != "outro"@,
        "opening"@ != "ending"@,
        "opening"@ != "ed"@,
        "opening"@ != "credits"@,
        "opening"@ != "credit"@,
        "opening"@ != "recap"@,
        "opening"@ != "preview"@,
        "op"@ != "outro"@,
        "op"@ != "ending"@,
        "op"@ != "ed"@,
        "op"@ != "credits"@,
        "op"@ != "credit"@,
        "op"@ != "recap"@,
        "op"@ != "preview"@,
        "outro"@ != "ending"@,
        "outro"@ != "ed"@,
        "outro"@ != "credits"@,
        "outro"@ != "credit"@,
        "outro"@ != "recap"@,
        "outro"@ != "preview"@,
        "ending"@ != "ed"@,
        "ending"@ != "credits"@,
        "ending"@ != "credit"@,
        "ending"@ != "recap"@,
        "ending"@ != "preview"@,
        "ed"@ != "credits"@,
        "ed"@ != "credit"@,
        "ed"@ != "recap"@,
        "ed"@ != "preview"@,
        "credits"@ != "credit"@,
        "credits"@ != "recap"@,
        "credits"@ != "preview"@,
        "credit"@ != "recap"@,
        "credit"@ != "preview"@,
        "recap"@ != "preview"@,
{
    reveal_strlit("intro");
    reveal_strlit("opening");
    reveal_strlit("op");
    reveal_strlit("outro");
    reveal_strlit("ending");
    reveal_strlit("ed");
    reveal_strlit("credits");
    reveal_strlit("credit");
    reveal_strlit("recap");
    reveal_strlit("preview");
    assert("intro"@.len() == 5);
    assert("opening"@.len() == 7);
    assert("op"@.len() == 2);
    assert("outro"@.len() == 5);
    assert("ending"@.len() == 6);
    assert("ed"@.len() == 2);
    assert("credits"@.len() == 7);
    assert("credit"@.len() == 6);
    assert("recap"@.len() == 5);
    assert("preview"@.len() == 7);
    assert("intro"@[0] == 'i');
    assert("opening"@[0] == 'o');
    assert("op"@[0] == 'o');
    assert("outro"@[0] == 'o');
    assert("ending"@[0] == 'e');
    assert("ed"@[0] == 'e');
    assert("credits"@[0] == 'c');
    assert("credit"@[0] == 'c');
    assert("recap"@[0] == 'r');
    assert("preview"@[0] == 'p');
}

/// An entry of a list of TheIntroDB that names a type, a start and an end is a
/// candidate with them; it is as sure as the entry says, or 0.9 where it says
/// nothing, and keeps what the file is known by.
pub proof fn listed_entries_are_candidates(
    c: MediaContext,
    response: Json,
    i: int,
    word: Seq<char>,
    start: i64,
    end: i64,
) -> (at: int)
    requires
        0 <= i < segment_array(response).len(),
        json::json_get(segment_array(response)[i], "segment_type"@) == Some(Json::Text(word)),
        mapped_type(word) is Some,
        reading::first_time(
            segment_array(response)[i],
            seq!["start_sec"@, "start_seconds"@, "start"@],
        ) == Some(start),
        reading::first_time(
            segment_array(response)[i],
            seq!["end_sec"@, "end_seconds"@, "end"@],
        ) == Some(end),
    ensures
        ({
            let found = response_candidates("theintrodb"@, c, response);
            let entry = segment_array(response)[i];
            &&& 0 <= at < found.len()
            &&& found[at].media_file_id == c.media_file_id
            &&& found[at].item_type == Some(c.item_type)
            &&& found[at].item_id == Some(c.item_id)
            &&& Some(found[at].segment_type) == mapped_type(word)
            &&& found[at].start == Quantity::Micros(start)
            &&& found[at].end == Quantity::Micros(end)
            &&& found[at].provider_kind == "theintrodb"@
            &&& found[at].provider_id == "introdb_segments"@
            &&& found[at].provider_version == Some("1"@)
            &&& found[at].identity_strength == "external_id_exact"@
            &&& json::json_get(entry, "confidence"@) is None && json::json_get(entry, "score"@)
                is None ==> found[at].confidence == Quantity::Micros(900_000)
            &&& match json::json_get(entry, "confidence"@) {
                Some(Json::Number(JsonNumber::Fraction(n))) => 0 <= n <= 1_000_000
                    ==> found[at].confidence == Quantity::Micros(n),
                Some(_) => true,
                None => match json::json_get(entry, "score"@) {
                    Some(Json::Number(JsonNumber::Fraction(n))) => 0 <= n <= 1_000_000
                        ==> found[at].confidence == Quantity::Micros(n),
                    _ => true,
                },
            }
            &&& found[at].source_payload is Some
            &&& json::json_get(found[at].source_payload->0, "raw"@) == Some(entry)
            &&& json::json_get(found[at].source_payload->0, "provider"@) == Some(
                Json::Text("theintrodb"@),
            )
            &&& json::json_get(entry, "id"@) is Some ==> json::json_get(
                found[at].source_payload->0,
                "provider_segment_id"@,
            ) == json::json_get(entry, "id"@)
        }),
{
    let entry = segment_array(response)[i];
    let keys = seq!["segment_type"@, "segmentType"@, "type"@];
    assert(reading::first_member(entry, keys) == json::json_get(entry, keys[0]));
    let ids = seq!["id"@, "segment_id"@, "segmentId"@];
    assert(json::json_get(entry, ids[0]) is Some ==> reading::first_member(entry, ids)
        == json::json_get(entry, ids[0]));
    assert(entries_of(response)[i] == (None::<Seq<char>>, entry));
    let m = theintrodb_payload(c, entry)->Object_0;
    lemma_payload_names_differ();
    json::lemma_lookup_at(m, "raw"@, 4);
    json::lemma_lookup_at(m, "provider"@, 2);
    json::lemma_lookup_at(m, "provider_segment_id"@, 3);
    lemma_entry_found(c, entries_of(response), i)
}

proof fn lemma_payload_names_differ()
    ensures
        "episode_number"@ != "imdb_id"@,
        "episode_number"@ != "provider"@,
        "episode_number"@ != "provider_segment_id"@,
        "episode_number"@ != "raw"@,
        "episode_number"@ != "season_number"@,
        "episode_number"@ != "tmdb_id"@,
        "episode_number"@ != "tvdb_id"@,
        "imdb_id"@ != "provider"@,
        "imdb_id"@ != "provider_segment_id"@,
        "imdb_id"@ != "raw"@,
        "imdb_id"@ != "season_number"@,
        "imdb_id"@ != "tmdb_id"@,
        "imdb_id"@ != "tvdb_id"@,
        "provider"@ != "provider_segment_id"@,
        "provider"@ != "raw"@,
        "provider"@ != "season_number"@,
        "provider"@ != "tmdb_id"@,
        "provider"@ != "tvdb_id"@,
        "provider_segment_id"@ != "raw"@,
        "provider_segment_id"@ != "season_number"@,
        "provider_segment_id"@ != "tmdb_id"@,
        "provider_segment_id"@ != "tvdb_id"@,
        "raw"@ != "season_number"@,
        "raw"@ != "tmdb_id"@,
        "raw"@ != "tvdb_id"@,
        "season_number"@ != "tmdb_id"@,
        "season_number"@ != "tvdb_id"@,
        "tmdb_id"@ != "tvdb_id"@,
{
    reveal_strlit("episode_number");
    reveal_strlit("imdb_id");
    reveal_strlit("provider");
    reveal_strlit("provider_segment_id");
    reveal_strlit("raw");
    reveal_strlit("season_number");
    reveal_strlit("tmdb_id");
    reveal_strlit("tvdb_id");
    assert("episode_number"@.len() == 14);
    assert("imdb_id"@.len() == 7);
    assert("provider"@.len() == 8);
    assert("provider_segment_id"@.len() == 19);
    assert("raw"@.len() == 3);
    assert("season_number"@.len() == 13);
    assert("tmdb_id"@.len() == 7);
    assert("tvdb_id"@.len() == 7);
    assert("imdb_id"@[0] == 'i');
    assert("tmdb_id"@[0] == 't');
    assert("tmdb_id"@[1] == 'm');
    assert("tvdb_id"@[0] == 't');
    assert("tvdb_id"@[1] == 'v');
}

/// The list of a response is the response itself, else the first list that stands
/// under segments, results or data.
pub proof fn responses_name_their_list(response: Json, list: Seq<Json>)
    ensures
        response == Json::Array(list) ==> segment_array(response) == list,
        json::json_get(response, "segments"@) == Some(Json::Array(list)) ==> segment_array(response)
            == list,
        json::json_get(response, "segments"@) is None && json::json_get(response, "results"@)
            == Some(Json::Array(list)) ==> segment_array(response) == list,
        json::json_get(response, "segments"@) is None && json::json_get(response, "results"@)
            is None && json::json_get(response, "data"@) == Some(Json::Array(list))
            ==> segment_array(response) == list,
{
    let keys = seq!["segments"@, "results"@, "data"@];
    assert(keys.drop_first() =~= seq!["results"@, "data"@]);
    assert(keys.drop_first().drop_first() =~= seq!["data"@]);
    reveal_with_fuel(first_array, 4);
}

proof fn lemma_skip_found(c: MediaContext, entries: Seq<Json>, i: int) -> (at: int)
    requires
        0 <= i < entries.len(),
        aniskip_candidate(c, entries[i]) is Some,
    ensures
        0 <= at < aniskip_candidates(c, entries).len(),
        aniskip_candidates(c, entries)[at] == aniskip_candidate(c, entries[i])->0,
    decreases entries.len(),
{
    let rest = entries.drop_last();
    if i < rest.len() {
        assert(rest[i] == entries[i]);
        lemma_skip_found(c, rest, i)
    } else {
        aniskip_candidates(c, rest).len() as int
    }
}

/// A result of AniSkip with the skip type of an opening, an ending or a recap, and
/// an interval with a start and an end, is a candidate of that type over that
/// interval.
pub proof fn skip_times_are_candidates(
    c: MediaContext,
    response: Json,
    results: Seq<Json>,
    i: int,
    word: Seq<char>,
    interval: Json,
    start: i64,
    end: i64,
) -> (at: int)
    requires
        json::json_get(response, "results"@) == Some(Json::Array(results)),
        0 <= i < results.len(),
        json::json_get(results[i], "skipType"@) == Some(Json::Text(word)) || (json::json_get(
            results[i],
            "skipType"@,
        ) is None && json::json_get(results[i], "skip_type"@) == Some(Json::Text(word))),
        json::json_get(results[i], "interval"@) == Some(interval),
        reading::first_time(interval, seq!["startTime"@, "start_time"@, "start"@]) == Some(start),
        reading::first_time(interval, seq!["endTime"@, "end_time"@, "end"@]) == Some(end),
        ({
            let s = text::lower_seq(text::trim_seq(word));
            s == "op"@ || s == "mixed-op"@ || s == "mixed_op"@ || s == "ed"@ || s == "mixed-ed"@
                || s == "mixed_ed"@ || s == "recap"@
        }),
    ensures
        ({
            let found = response_candidates("aniskip"@, c, response);
            let s = text::lower_seq(text::trim_seq(word));
            &&& 0 <= at < found.len()
            &&& found[at].media_file_id == c.media_file_id
            &&& found[at].item_type == Some(c.item_type)
            &&& found[at].item_id == Some(c.item_id)
            &&& s == "op"@ || s == "mixed-op"@ || s == "mixed_op"@ ==> found[at].segment_type
                == "intro"@
            &&& s == "ed"@ || s == "mixed-ed"@ || s == "mixed_ed"@ ==> found[at].segment_type
                == "outro"@
            &&& s == "recap"@ ==> found[at].segment_type == "recap"@
            &&& found[at].start == Quantity::Micros(start)
            &&& found[at].end == Quantity::Micros(end)
            &&& found[at].provider_kind == "aniskip"@
            &&& found[at].provider_id == "aniskip_skip_times"@
            &&& found[at].provider_version == Some("1"@)
            &&& found[at].confidence == Quantity::Micros(880_000)
            &&& found[at].identity_strength == "external_id_episode"@
            &&& found[at].source_payload is Some
        }),
{
    lemma_skip_words_differ();
    reveal_strlit("theintrodb");
    reveal_strlit("aniskip");
    assert("theintrodb"@.len() == 10 && "aniskip"@.len() == 7);
    lemma_skip_found(c, results, i)
}

proof fn lemma_skip_words_differ()
    ensures
        "op"@ != "mixed-op"@,
        "op"@ != "mixed_op"@,
        "op"@ != "ed"@,
        "op"@ != "mixed-ed"@,
        "op"@ != "mixed_ed"@,
        "op"@ != "recap"@,
        "mixed-op"@ != "mixed_op"@,
        "mixed-op"@ != "ed"@,
        "mixed-op"@ != "mixed-ed"@,
        "mixed-op"@ != "mixed_ed"@,
        "mixed-op"@ != "recap"@,
        "mixed_op"@ != "ed"@,
        "mixed_op"@ != "mixed-ed"@,
        "mixed_op"@ != "mixed_ed"@,
        "mixed_op"@ != "recap"@,
        "ed"@ != "mixed-ed"@,
        "ed"@ != "mixed_ed"@,
        "ed"@ != "recap"@,
        "mixed-ed"@ != "mixed_ed"@,
        "mixed-ed"@ != "recap"@,
        "mixed_ed"@ != "recap"@,
{
    reveal_strlit("op");
    reveal_strlit("mixed-op");
    reveal_strlit("mixed_op");
    reveal_strlit("ed");
    reveal_strlit("mixed-ed");
    reveal_strlit("mixed_ed");
    reveal_strlit("recap");
    assert("op"@.len() == 2);
    assert("mixed-op"@.len() == 8);
    assert("mixed_op"@.len() == 8);
    assert("ed"@.len() == 2);
    assert("mixed-ed"@.len() == 8);
    assert("mixed_ed"@.len() == 8);
    assert("recap"@.len() == 5);
    assert("op"@[0] == 'o');
    assert("mixed-op"@[5] == '-');
    assert("mixed-op"@[6] == 'o');
    assert("mixed_op"@[5] == '_');
    assert("mixed_op"@[6] == 'o');
    assert("ed"@[0] == 'e');
    assert("mixed-ed"@[5] == '-');
    assert("mixed-ed"@[6] == 'e');
    assert("mixed_ed"@[5] == '_');
    assert("mixed_ed"@[6] == 'e');
}

proof fn lemma_candidate_entry(
    c: MediaContext,
    entries: Seq<(Option<Seq<char>>, Json)>,
    at: int,
) -> (i: int)
    requires
        0 <= at < theintrodb_candidates(c, entries).len(),
    ensures
        0 <= i < entries.len(),
        theintrodb_candidate(c, entries[i]) == Some(theintrodb_candidates(c, entries)[at]),
    decreases entries.len(),
{
    let rest = entries.drop_last();
    if at < theintrodb_candidates(c, rest).len() {
        let i = lemma_candidate_entry(c, rest, at);
        assert(rest[i] == entries[i]);
        i
    } else {
        entries.len() - 1
    }
}

/// Every candidate of TheIntroDB is an entry of the response: one of its list that names a
/// type, or one that stands under intro, recap, outro or credits, alone or in a list; it
/// has the start and the end of the entry, and its type, or else the one it stands under.
pub proof fn candidates_stand_in_the_response(c: MediaContext, response: Json, at: int) -> (r: (
    Option<Seq<char>>,
    Json,
))
    requires
        0 <= at < response_candidates("theintrodb"@, c, response).len(),
    ensures
        ({
            let x = response_candidates("theintrodb"@, c, response)[at];
            let (k, entry) = r;
            let start = reading::first_time(
                entry,
                seq!["start_sec"@, "start_seconds"@, "start"@],
            );
            let end = reading::first_time(entry, seq!["end_sec"@, "end_seconds"@, "end"@]);
            &&& start is Some && x.start == Quantity::Micros(start->0)
            &&& end is Some && x.end == Quantity::Micros(end->0)
            &&& type_in(entry) is Some ==> x.segment_type == type_in(entry)->0
            &&& type_in(entry) is None ==> k is Some && x.segment_type == k->0
            &&& k is None ==> segment_array(response).contains(entry)
            &&& k is Some ==> {
                let held = json::json_get(response, k->0);
                &&& k->0 == "intro"@ || k->0 == "recap"@ || k->0 == "outro"@ || k->0 == "credits"@
                &&& held == Some(entry) || (held is Some && held->0 is Array
                    && held->0->Array_0.contains(entry))
            }
            &&& x.provider_kind == "theintrodb"@
            &&& x.identity_strength == "external_id_exact"@
        }),
{
    let entries = entries_of(response);
    let i = lemma_candidate_entry(c, entries, at);
    let listed = segment_array(response).map_values(|v: Json| (None::<Seq<char>>, v));
    let a = typed_entries(response, "intro"@);
    let b = typed_entries(response, "recap"@);
    let d = typed_entries(response, "outro"@);
    let e = typed_entries(response, "credits"@);
    let n0 = listed.len() as int;
    let n1 = n0 + a.len();
    let n2 = n1 + b.len();
    let n3 = n2 + d.len();
    if i < n0 {
        assert(entries[i] == listed[i]);
        assert(segment_array(response)[i] == entries[i].1);
        assert(segment_array(response).contains(entries[i].1));
    } else if i < n1 {
        assert(entries[i] == a[i - n0]);
        lemma_typed_entry(response, "intro"@, i - n0);
    } else if i < n2 {
        assert(entries[i] == b[i - n1]);
        lemma_typed_entry(response, "recap"@, i - n1);
    } else if i < n3 {
        assert(entries[i] == d[i - n2]);
        lemma_typed_entry(response, "outro"@, i - n2);
    } else {
        assert(entries[i] == e[i - n3]);
        lemma_typed_entry(response, "credits"@, i - n3);
    }
    entries[i]
}

proof fn lemma_typed_entry(response: Json, k: Seq<char>, i: int)
    requires
        0 <= i < typed_entries(response, k).len(),
    ensures
        typed_entries(response, k)[i].0 == Some(k),
        ({
            let held = json::json_get(response, k);
            let entry = typed_entries(response, k)[i].1;
            held == Some(entry) || (held is Some && held->0 is Array && held->0->Array_0.contains(
                entry,
            ))
        }),
{
    match json::json_get(response, k) {
        Some(Json::Array(a)) => {
            assert(typed_entries(response, k)[i] == (Some(k), a[i]));
            assert(a.contains(a[i]));
        },
        _ => {},
    }
}

/// No other provider has candidates in a response.
pub proof fn other_providers_have_no_candidates(k: Seq<char>, c: MediaContext, response: Json)
    requires
        k != "theintrodb"@,
        k != "aniskip"@,
    ensures
        response_candidates(k, c, response).len() == 0,
{
}

proof fn lemma_skip_entry(c: MediaContext, entries: Seq<Json>, at: int) -> (i: int)
    requires
        0 <= at < aniskip_candidates(c, entries).len(),
    ensures
        0 <= i < entries.len(),
        aniskip_candidate(c, entries[i]) == Some(aniskip_candidates(c, entries)[at]),
    decreases entries.len(),
{
    let rest = entries.drop_last();
    if at < aniskip_candidates(c, rest).len() {
        let i = lemma_skip_entry(c, rest, at);
        assert(rest[i] == entries[i]);
        i
    } else {
        entries.len() - 1
    }
}

/// Every candidate of AniSkip is a result of the response, over its interval, or over the
/// times of its own where it has none; it is an intro, an outro or a recap.
pub proof fn skip_candidates_stand_in_the_response(c: MediaContext, response: Json, at: int) -> (
    entry: Json)
    requires
        0 <= at < response_candidates("aniskip"@, c, response).len(),
    ensures
        ({
            let x = response_candidates("aniskip"@, c, response)[at];
            let held = json::json_get(response, "results"@);
            let interval = match json::json_get(entry, "interval"@) {
                Some(v) => v,
                None => entry,
            };
            let start = reading::first_time(
                interval,
                seq!["startTime"@, "start_time"@, "start"@],
            );
            let end = reading::first_time(interval, seq!["endTime"@, "end_time"@, "end"@]);
            &&& held is Some && held->0 is Array && held->0->Array_0.contains(entry)
            &&& start is Some && x.start == Quantity::Micros(start->0)
            &&& end is Some && x.end == Quantity::Micros(end->0)
            &&& x.segment_type == "intro"@ || x.segment_type == "outro"@ || x.segment_type
                == "recap"@
            &&& x.confidence == Quantity::Micros(880_000)
        }),
{
    reveal_strlit("theintrodb");
    reveal_strlit("aniskip");
    assert("theintrodb"@.len() == 10 && "aniskip"@.len() == 7);
    let entries = aniskip_entries(response);
    let i = lemma_skip_entry(c, entries, at);
    assert(entries.contains(entries[i]));
    entries[i]
}

/// What a candidate of TheIntroDB keeps of its source: the entry, its id under any of its
/// names, and what the file is known by.
pub proof fn theintrodb_sources_are_kept(c: MediaContext, entry: Json, k: int, id: Json)
    ensures
        ({
            let p = theintrodb_payload(c, entry);
            let names = seq!["id"@, "segment_id"@, "segmentId"@];
            &&& json::json_get(p, "episode_number"@) == Some(opt_number_json(c.episode_number))
            &&& json::json_get(p, "season_number"@) == Some(opt_number_json(c.season_number))
            &&& json::json_get(p, "imdb_id"@) == Some(json::opt_text_json(c.imdb_id))
            &&& json::json_get(p, "tmdb_id"@) == Some(json::opt_text_json(c.tmdb_id))
            &&& json::json_get(p, "tvdb_id"@) == Some(json::opt_text_json(c.tvdb_id))
            &&& json::json_get(p, "provider"@) == Some(Json::Text("theintrodb"@))
            &&& json::json_get(p, "raw"@) == Some(entry)
            &&& 0 <= k < names.len() && json::json_get(entry, names[k]) == Some(id) && (forall|
                i: int,
            |
                0 <= i < k ==> json::json_get(entry, #[trigger] names[i]) is None)
                ==> json::json_get(p, "provider_segment_id"@) == Some(id)
        }),
{
    lemma_payload_names_differ();
    let m = theintrodb_payload(c, entry)->Object_0;
    json::lemma_lookup_at(m, "episode_number"@, 0);
    json::lemma_lookup_at(m, "imdb_id"@, 1);
    json::lemma_lookup_at(m, "provider"@, 2);
    json::lemma_lookup_at(m, "provider_segment_id"@, 3);
    json::lemma_lookup_at(m, "raw"@, 4);
    json::lemma_lookup_at(m, "season_number"@, 5);
    json::lemma_lookup_at(m, "tmdb_id"@, 6);
    json::lemma_lookup_at(m, "tvdb_id"@, 7);
    let names = seq!["id"@, "segment_id"@, "segmentId"@];
    if 0 <= k < names.len() && json::json_get(entry, names[k]) == Some(id) && (forall|i: int|
        0 <= i < k ==> json::json_get(entry, #[trigger] names[i]) is None) {
        reading::first_member_there_counts(entry, names, k);
    }
}

/// What a candidate of AniSkip keeps of its source: the result, its id and length under
/// either of their names, the skip type, and what the file is known by.
pub proof fn aniskip_sources_are_kept(c: MediaContext, entry: Json, skip_type: Seq<char>)
    ensures
        ({
            let p = aniskip_payload(c, entry, skip_type);
            let either = |a: Seq<char>, b: Seq<char>|
                match json::json_get(entry, a) {
                    Some(v) => v,
                    None => match json::json_get(entry, b) {
                        Some(v) => v,
                        None => Json::Null,
                    },
                };
            &&& json::json_get(p, "absolute_episode_number"@) == Some(
                opt_number_json(c.absolute_episode_number),
            )
            &&& json::json_get(p, "episode_number"@) == Some(opt_number_json(c.episode_number))
            &&& json::json_get(p, "anilist_id"@) == Some(json::opt_text_json(c.anilist_id))
            &&& json::json_get(p, "mal_id"@) == Some(json::opt_text_json(c.mal_id))
            &&& json::json_get(p, "provider"@) == Some(Json::Text("aniskip"@))
            &&& json::json_get(p, "raw"@) == Some(entry)
            &&& json::json_get(p, "skip_type"@) == Some(Json::Text(skip_type))
            &&& json::json_get(p, "skip_id"@) == Some(either("skipId"@, "skip_id"@))
            &&& json::json_get(p, "episode_length"@) == Some(
                either("episodeLength"@, "episode_length"@),
            )
        }),
{
    lemma_skip_payload_names_differ();
    let m = aniskip_payload(c, entry, skip_type)->Object_0;
    json::lemma_lookup_at(m, "absolute_episode_number"@, 0);
    json::lemma_lookup_at(m, "anilist_id"@, 1);
    json::lemma_lookup_at(m, "episode_length"@, 2);
    json::lemma_lookup_at(m, "episode_number"@, 3);
    json::lemma_lookup_at(m, "mal_id"@, 4);
    json::lemma_lookup_at(m, "provider"@, 5);
    json::lemma_lookup_at(m, "raw"@, 6);
    json::lemma_lookup_at(m, "skip_id"@, 7);
    json::lemma_lookup_at(m, "skip_type"@, 8);
}

proof fn lemma_skip_payload_names_differ()
    ensures
        "absolute_episode_number"@ != "anilist_id"@,
        "absolute_episode_number"@ != "episode_length"@,
        "absolute_episode_number"@ != "episode_number"@,
        "absolute_episode_number"@ != "mal_id"@,
        "absolute_episode_number"@ != "provider"@,
        "absolute_episode_number"@ != "raw"@,
        "absolute_episode_number"@ != "skip_id"@,
        "absolute_episode_number"@ != "skip_type"@,
        "anilist_id"@ != "episode_length"@,
        "anilist_id"@ != "episode_number"@,
        "anilist_id"@ != "mal_id"@,
        "anilist_id"@ != "provider"@,
        "anilist_id"@ != "raw"@,
        "anilist_id"@ != "skip_id"@,
        "anilist_id"@ != "skip_type"@,
        "episode_length"@ != "episode_number"@,
        "episode_length"@ != "mal_id"@,
        "episode_length"@ != "provider"@,
        "episode_length"@ != "raw"@,
        "episode_length"@ != "skip_id"@,
        "episode_length"@ != "skip_type"@,
        "episode_number"@ != "mal_id"@,
        "episode_number"@ != "provider"@,
        "episode_number"@ != "raw"@,
        "episode_number"@ != "skip_id"@,
        "episode_number"@ != "skip_type"@,
        "mal_id"@ != "provider"@,
        "mal_id"@ != "raw"@,
        "mal_id"@ != "skip_id"@,
        "mal_id"@ != "skip_type"@,
        "provider"@ != "raw"@,
        "provider"@ != "skip_id"@,
        "provider"@ != "skip_type"@,
        "raw"@ != "skip_id"@,
        "raw"@ != "skip_type"@,
        "skip_id"@ != "skip_type"@,
{
    reveal_strlit("absolute_episode_number");
    reveal_strlit("anilist_id");
    reveal_strlit("episode_length");
    reveal_strlit("episode_number");
    reveal_strlit("mal_id");
    reveal_strlit("provider");
    reveal_strlit("raw");
    reveal_strlit("skip_id");
    reveal_strlit("skip_type");
    assert("absolute_episode_number"@.len() == 23);
    assert("anilist_id"@.len() == 10);
    assert("episode_length"@.len() == 14);
    assert("episode_number"@.len() == 14);
    assert("mal_id"@.len() == 6);
    assert("provider"@.len() == 8);
    assert("raw"@.len() == 3);
    assert("skip_id"@.len() == 7);
    assert("skip_type"@.len() == 9);
    assert("episode_length"@[8] == 'l');
    assert("episode_number"@[8] == 'n');
}

/// The type of an entry stands under any of its names, where those before it are not
/// there; a text that is no type, and what is no text, is none.
pub proof fn types_are_read_under_their_names(entry: Json, k: int, v: Json)
    requires
        ({
            let names = seq!["segment_type"@, "segmentType"@, "type"@];
            &&& 0 <= k < names.len()
            &&& json::json_get(entry, names[k]) == Some(v)
            &&& forall|i: int| 0 <= i < k ==> json::json_get(entry, #[trigger] names[i]) is None
        }),
    ensures
        match v {
            Json::Text(word) => type_in(entry) == mapped_type(word),
            _ => type_in(entry) is None,
        },
{
    let names = seq!["segment_type"@, "segmentType"@, "type"@];
    reading::first_member_there_counts(entry, names, k);
}

} // verus!
