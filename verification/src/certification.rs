//! Certifying a segment provider of an extension: it is probed for each media
//! type that it serves, and certified where every response is sound.

use vstd::prelude::*;
use crate::consts;
use crate::context::{MediaContext, ProviderMediaContext};
use crate::error::{self, opt_text, refuse, SegmentError};
use crate::jobs;
use crate::json::{self, opt_text_value, text_value, Json, JsonNumber, JsonValue};
use crate::marketplace::{
    self, entry_end, entry_start, marketplace_provider_media_type_for_context,
    segment_provider_supports_segment_type, MarketplaceSegmentProviderSelection, Selection,
};
use crate::normalize::{self, normalize_provider_id, normalize_segment_provider_media_type};
use crate::number;
use crate::outside;
use crate::reading::{self, as_array};
use crate::responses::{self, provider_segment_type};
use crate::text;

verus! {

/// What a probe of a provider came to.
#[derive(Debug, Clone)]
pub struct MediaSegmentProviderCertificationProbe {
    pub media_type: String,
    pub status: String,
    pub failure_class: Option<String>,
    pub summary: String,
    pub segment_count: usize,
    /// How many segments of each type there were, by the type.
    pub segment_type_counts: Vec<(String, usize)>,
    pub response_evidence: JsonValue,
}

/// The same, as a mathematical value.
#[verifier::ext_equal]
pub struct Probe {
    pub media_type: Seq<char>,
    pub status: Seq<char>,
    pub failure_class: Option<Seq<char>>,
    pub summary: Seq<char>,
    pub segment_count: nat,
    pub segment_type_counts: Seq<(Seq<char>, int)>,
    pub response_evidence: Json,
}

/// Some counts, as mathematical values.
pub open spec fn counts_of(v: Seq<(String, usize)>) -> Seq<(Seq<char>, int)> {
    v.map_values(|c: (String, usize)| (c.0@, c.1 as int))
}

impl View for MediaSegmentProviderCertificationProbe {
    type V = Probe;

    open spec fn view(&self) -> Probe {
        Probe {
            media_type: self.media_type@,
            status: self.status@,
            failure_class: opt_text(self.failure_class),
            summary: self.summary@,
            segment_count: self.segment_count as nat,
            segment_type_counts: counts_of(self.segment_type_counts@),
            response_evidence: self.response_evidence@,
        }
    }
}

/// The counts with `n` more under a name, by the name.
pub open spec fn counted(counts: Seq<(Seq<char>, int)>, key: Seq<char>, n: int) -> Seq<
    (Seq<char>, int),
>
    decreases counts.len(),
{
    if counts.len() == 0 {
        seq![(key, n)]
    } else if counts[0].0 == key {
        seq![(key, counts[0].1 + n)] + counts.drop_first()
    } else if text::lex_lt(key, counts[0].0) {
        seq![(key, n)] + counts
    } else {
        seq![counts[0]] + counted(counts.drop_first(), key, n)
    }
}

/// The sum of some counts.
pub open spec fn count_total(counts: Seq<(Seq<char>, int)>) -> int
    decreases counts.len(),
{
    if counts.len() == 0 {
        0
    } else {
        counts[0].1 + count_total(counts.drop_first())
    }
}

/// Whether no count is negative.
pub open spec fn counts_sound(counts: Seq<(Seq<char>, int)>) -> bool {
    forall|i: int| 0 <= i < counts.len() ==> (#[trigger] counts[i]).1 >= 0
}

proof fn lemma_counted(counts: Seq<(Seq<char>, int)>, key: Seq<char>, n: int)
    requires
        counts_sound(counts),
        n >= 0,
    ensures
        counts_sound(counted(counts, key, n)),
        count_total(counted(counts, key, n)) == count_total(counts) + n,
        count_total(counts) >= 0,
        forall|i: int| 0 <= i < counts.len() ==> (#[trigger] counts[i]).1 <= count_total(counts),
    decreases counts.len(),
{
    reveal_with_fuel(count_total, 2);
    let m = counted(counts, key, n);
    if counts.len() == 0 {
        assert(m.drop_first() =~= Seq::empty());
    } else {
        let rest = counts.drop_first();
        assert(counts[0].1 >= 0);
        assert forall|i: int| 0 <= i < rest.len() implies (#[trigger] rest[i]).1 >= 0 by {
            assert(counts[i + 1].1 >= 0);
        }
        lemma_counted(rest, key, n);
        assert forall|i: int| 0 <= i < counts.len() implies (#[trigger] counts[i]).1
            <= count_total(counts) by {
            if i > 0 {
                assert(counts[i] == rest[i - 1]);
            }
        }
        if counts[0].0 == key {
            assert(m.drop_first() =~= rest);
        } else if text::lex_lt(key, counts[0].0) {
            assert(m.drop_first() =~= counts);
        } else {
            assert(m.drop_first() =~= counted(rest, key, n));
        }
        assert forall|i: int| 0 <= i < m.len() implies (#[trigger] m[i]).1 >= 0 by {
            if i > 0 {
                if counts[0].0 == key {
                    assert(m[i] == counts[i]);
                } else if text::lex_lt(key, counts[0].0) {
                    assert(m[i] == counts[i - 1]);
                } else {
                    assert(m[i] == counted(rest, key, n)[i - 1]);
                }
            }
        }
    }
}

proof fn lemma_counted_at(counts: Seq<(Seq<char>, int)>, key: Seq<char>, n: int, p: int)
    requires
        0 <= p <= counts.len(),
        forall|i: int|
            0 <= i < p ==> (#[trigger] counts[i]).0 != key && !text::lex_lt(key, counts[i].0),
    ensures
        counted(counts, key, n) == counts.take(p) + counted(counts.skip(p), key, n),
    decreases p,
{
    if p == 0 {
        assert(counts.skip(0) =~= counts);
        assert(counts.take(0) + counted(counts, key, n) =~= counted(counts, key, n));
    } else {
        let rest = counts.drop_first();
        assert(counts[0].0 != key && !text::lex_lt(key, counts[0].0));
        assert forall|i: int| 0 <= i < p - 1 implies (#[trigger] rest[i]).0 != key && !text::lex_lt(
            key,
            rest[i].0,
        ) by {
            assert(rest[i] == counts[i + 1]);
        }
        lemma_counted_at(rest, key, n, p - 1);
        assert(rest.skip(p - 1) =~= counts.skip(p));
        assert(counts.take(p) =~= seq![counts[0]] + rest.take(p - 1));
        assert(counted(counts, key, n) =~= counts.take(p) + counted(counts.skip(p), key, n));
    }
}

/// Counts `n` more under a name.
fn count(counts: &mut Vec<(String, usize)>, key: &str, n: usize)
    requires
        count_total(counts_of(old(counts)@)) + n <= usize::MAX,
    ensures
        counts_of(final(counts)@) == counted(counts_of(old(counts)@), key@, n as int),
        count_total(counts_of(final(counts)@)) == count_total(counts_of(old(counts)@)) + n,
{
    let ghost before = counts_of(counts@);
    proof {
        lemma_counted(before, key@, n as int);
    }
    let len: usize = counts.len();
    let mut p: usize = 0;
    while p < len && !text::str_eq(counts[p].0.as_str(), key) && !text::str_lt(
        key,
        counts[p].0.as_str(),
    )
        invariant
            p <= len == counts@.len(),
            before == counts_of(counts@),
            forall|i: int|
                0 <= i < p ==> (#[trigger] before[i]).0 != key@ && !text::lex_lt(key@, before[i].0),
        decreases len - p,
    {
        proof {
            assert(before[p as int].0 == counts@[p as int].0@);
        }
        p += 1;
    }
    proof {
        lemma_counted_at(before, key@, n as int, p as int);
    }
    let ghost tail = before.skip(p as int);
    if p < len && text::str_eq(counts[p].0.as_str(), key) {
        proof {
            assert(before[p as int].1 <= count_total(before));
            assert(tail[0] == before[p as int]);
        }
        let c: usize = counts[p].1;
        counts.set(p, (key.to_owned(), c + n));
        proof {
            assert(counts_of(counts@) =~= before.take(p as int) + counted(tail, key@, n as int));
        }
    } else {
        proof {
            if p < len {
                assert(tail[0] == before[p as int]);
                assert(before[p as int].0 == counts@[p as int].0@);
            }
        }
        counts.insert(p, (key.to_owned(), n));
        proof {
            assert(counts_of(counts@) =~= before.take(p as int) + counted(tail, key@, n as int));
        }
    }
}

/// The media types that a provider is probed for.
pub open spec fn probe_types(s: Selection) -> Seq<Seq<char>> {
    let all = Seq::<Seq<char>>::empty();
    let a = if names_type(s.media_types, "movie"@) {
        all.push("movie"@)
    } else {
        all
    };
    let b = if names_type(s.media_types, "series"@) {
        a.push("series"@)
    } else {
        a
    };
    if names_type(s.media_types, "anime"@) {
        b.push("anime"@)
    } else {
        b
    }
}

/// Whether one of some words stands for a media type.
pub open spec fn names_type(words: Seq<Seq<char>>, kind: Seq<char>) -> bool {
    exists|i: int|
        0 <= i < words.len() && normalize::media_type_of(#[trigger] words[i]) == Some(kind)
}

fn any_names_type(words: &Vec<String>, kind: &str) -> (r: bool)
    ensures
        r == names_type(number::texts(words@), kind@),
{
    let ghost all = number::texts(words@);
    let mut i: usize = 0;
    while i < words.len()
        invariant
            i <= words@.len(),
            all == number::texts(words@),
            forall|j: int|
                0 <= j < i ==> normalize::media_type_of(#[trigger] all[j]) != Some(kind@),
        decreases words@.len() - i,
    {
        proof {
            assert(all[i as int] == words@[i as int]@);
        }
        if let Some(t) = normalize_segment_provider_media_type(words[i].as_str()) {
            if text::str_eq(t, kind) {
                return true;
            }
        }
        i += 1;
    }
    false
}

/// The media types that a provider is probed for.
pub fn marketplace_segment_provider_certification_media_types(
    selected: &MarketplaceSegmentProviderSelection,
) -> (r: Vec<String>)
    ensures
        number::texts(r@) == probe_types(selected@),
{
    let mut out: Vec<String> = Vec::new();
    proof {
        assert(number::texts(out@) =~= Seq::empty());
    }
    let ghost a = number::texts(out@);
    if any_names_type(&selected.media_types, "movie") {
        out.push("movie".to_owned());
        proof {
            assert(number::texts(out@) =~= a.push("movie"@));
        }
    }
    let ghost b = number::texts(out@);
    if any_names_type(&selected.media_types, "series") {
        out.push("series".to_owned());
        proof {
            assert(number::texts(out@) =~= b.push("series"@));
        }
    }
    let ghost c = number::texts(out@);
    if any_names_type(&selected.media_types, "anime") {
        out.push("anime".to_owned());
        proof {
            assert(number::texts(out@) =~= c.push("anime"@));
        }
    }
    out
}

/// The film or episode that a provider is probed with.
pub open spec fn probe_context(media_type: Seq<char>) -> MediaContext {
    if media_type == "movie"@ {
        MediaContext {
            media_file_id: "certification-movie-file"@,
            item_type: "movie"@,
            item_id: "certification-movie"@,
            imdb_id: Some("tt0000001"@),
            tmdb_id: Some("1"@),
            tvdb_id: None,
            anilist_id: None,
            mal_id: None,
            season_number: None,
            episode_number: None,
            absolute_episode_number: None,
            duration: Some(1_800_000_000),
        }
    } else if media_type == "anime"@ {
        MediaContext {
            media_file_id: "certification-anime-file"@,
            item_type: "episode"@,
            item_id: "certification-anime-episode"@,
            imdb_id: None,
            tmdb_id: None,
            tvdb_id: None,
            anilist_id: Some("1"@),
            mal_id: Some("1"@),
            season_number: Some(1),
            episode_number: Some(1),
            absolute_episode_number: Some(1),
            duration: Some(1_500_000_000),
        }
    } else {
        MediaContext {
            media_file_id: "certification-series-file"@,
            item_type: "episode"@,
            item_id: "certification-series-episode"@,
            imdb_id: Some("tt0000002"@),
            tmdb_id: None,
            tvdb_id: Some("2"@),
            anilist_id: None,
            mal_id: None,
            season_number: Some(1),
            episode_number: Some(1),
            absolute_episode_number: Some(1),
            duration: Some(1_500_000_000),
        }
    }
}

/// The film or episode that a provider is probed with.
pub fn media_segment_provider_certification_context(media_type: &str) -> (r: ProviderMediaContext)
    ensures
        r@ == probe_context(media_type@),
{
    if text::str_eq(media_type, "movie") {
        ProviderMediaContext {
            media_file_id: "certification-movie-file".to_owned(),
            item_type: "movie".to_owned(),
            item_id: "certification-movie".to_owned(),
            imdb_id: Some("tt0000001".to_owned()),
            tmdb_id: Some("1".to_owned()),
            tvdb_id: None,
            anilist_id: None,
            mal_id: None,
            season_number: None,
            episode_number: None,
            absolute_episode_number: None,
            duration: Some(1_800_000_000),
        }
    } else if text::str_eq(media_type, "anime") {
        ProviderMediaContext {
            media_file_id: "certification-anime-file".to_owned(),
            item_type: "episode".to_owned(),
            item_id: "certification-anime-episode".to_owned(),
            imdb_id: None,
            tmdb_id: None,
            tvdb_id: None,
            anilist_id: Some("1".to_owned()),
            mal_id: Some("1".to_owned()),
            season_number: Some(1),
            episode_number: Some(1),
            absolute_episode_number: Some(1),
            duration: Some(1_500_000_000),
        }
    } else {
        ProviderMediaContext {
            media_file_id: "certification-series-file".to_owned(),
            item_type: "episode".to_owned(),
            item_id: "certification-series-episode".to_owned(),
            imdb_id: Some("tt0000002".to_owned()),
            tmdb_id: None,
            tvdb_id: Some("2".to_owned()),
            anilist_id: None,
            mal_id: None,
            season_number: Some(1),
            episode_number: Some(1),
            absolute_episode_number: Some(1),
            duration: Some(1_500_000_000),
        }
    }
}

/// What is wrong with an entry of a probed response, where something is.
pub open spec fn entry_fault(s: Selection, entry: Json) -> Option<Seq<char>> {
    let kind = responses::type_in(entry);
    let start = reading::first_time(entry, marketplace::start_names());
    let end = reading::first_time(entry, marketplace::end_names());
    if kind is None {
        Some("unsupported_segment_type"@)
    } else if !s.segment_types.contains(kind->0) {
        Some("segment_type_outside_scope"@)
    } else if start is None {
        Some("missing_start_seconds"@)
    } else if end is None {
        Some("missing_end_seconds"@)
    } else if end->0 <= start->0 {
        Some("invalid_time_range"@)
    } else {
        None
    }
}

/// A number of segments in what is kept of a probe.
pub open spec fn count_json(n: nat) -> Json {
    Json::Number(JsonNumber::Unsigned(n as u64))
}

/// A probe whose response has a faulty entry.
pub open spec fn faulty_probe(media_type: Seq<char>, n: nat, fault: Seq<char>, entry: Json) -> Probe {
    Probe {
        media_type,
        status: "broken"@,
        failure_class: Some(fault),
        summary: "invalid segment response: "@ + fault,
        segment_count: n,
        segment_type_counts: Seq::empty(),
        response_evidence: Json::Object(
            seq![
                ("failure_class"@, Json::Text(fault)),
                ("media_type"@, Json::Text(media_type)),
                ("segment"@, entry),
                ("segment_count"@, count_json(n)),
                ("status"@, Json::Text("broken"@)),
            ],
        ),
    }
}

/// A probe whose response has a faulty entry.
pub fn invalid_media_segment_provider_certification_segment(
    media_type: &str,
    segment_count: usize,
    failure_class: &str,
    value: &JsonValue,
) -> (r: MediaSegmentProviderCertificationProbe)
    ensures
        r@ == faulty_probe(media_type@, segment_count as nat, failure_class@, value@),
{
    let mut o: Vec<(String, JsonValue)> = Vec::new();
    o.push(("failure_class".to_owned(), text_value(failure_class)));
    o.push(("media_type".to_owned(), text_value(media_type)));
    o.push(("segment".to_owned(), value.dup()));
    o.push(
        (
            "segment_count".to_owned(),
            JsonValue::Number(JsonNumber::Unsigned(segment_count as u64)),
        ),
    );
    o.push(("status".to_owned(), text_value("broken")));
    let counts: Vec<(String, usize)> = Vec::new();
    proof {
        json::lemma_view_object(o);
        assert(json::members_of(o@) =~= faulty_probe(
            media_type@,
            segment_count as nat,
            failure_class@,
            value@,
        ).response_evidence->Object_0);
        assert(counts_of(counts@) =~= Seq::empty());
    }
    MediaSegmentProviderCertificationProbe {
        media_type: media_type.to_owned(),
        status: "broken".to_owned(),
        failure_class: Some(failure_class.to_owned()),
        summary: text::join2("invalid segment response: ", failure_class),
        segment_count,
        segment_type_counts: counts,
        response_evidence: JsonValue::Object(o),
    }
}

/// The list of a probed response; what has none is refused.
pub open spec fn probed_list(j: Json) -> Option<Seq<Json>> {
    match reading::json_array(j) {
        Some(a) => Some(a),
        None => named_list(j, seq!["segments"@, "results"@, "data"@]),
    }
}

/// The list under the first of some names that holds one.
pub open spec fn named_list(j: Json, keys: Seq<Seq<char>>) -> Option<Seq<Json>>
    decreases keys.len(),
{
    if keys.len() == 0 {
        None
    } else {
        let here = match json::json_get(j, keys[0]) {
            Some(v) => reading::json_array(v),
            None => None,
        };
        if here is Some {
            here
        } else {
            named_list(j, keys.drop_first())
        }
    }
}

/// The message where a response has no list.
pub open spec fn no_list_message() -> Seq<char> {
    "media segment provider response must be an array or contain segments/results/data array"@
}

/// The list of a probed response; what has none is refused.
pub fn provider_segment_array_for_certification<'a>(response: &'a JsonValue) -> (r: Result<
    &'a Vec<JsonValue>,
    SegmentError,
>)
    ensures
        match r {
            Ok(a) => probed_list(response@) == Some(reading::elements_of(a@)),
            Err(e) => probed_list(response@) is None && e.message@ == no_list_message(),
        },
{
    if let Some(a) = as_array(response) {
        return Ok(a);
    }
    let keys: Vec<&str> = vec!["segments", "results", "data"];
    let ghost all = reading::names(keys@);
    proof {
        assert(all =~= seq!["segments"@, "results"@, "data"@]);
        assert(all.skip(0) =~= all);
    }
    let mut i: usize = 0;
    while i < keys.len()
        invariant
            i <= keys@.len(),
            all == reading::names(keys@),
            probed_list(response@) == named_list(response@, all.skip(i as int)),
        decreases keys@.len() - i,
    {
        proof {
            assert(all.skip(i as int)[0] == keys@[i as int]@);
            assert(all.skip(i as int).drop_first() =~= all.skip(i + 1));
        }
        if let Some(v) = response.get(keys[i]) {
            if let Some(a) = as_array(v) {
                return Ok(a);
            }
        }
        i += 1;
    }
    Err(
        refuse(
            "media segment provider response must be an array or contain segments/results/data array",
        ),
    )
}

/// The first faulty one of some entries.
pub open spec fn first_fault(s: Selection, entries: Seq<Json>) -> Option<(Seq<char>, Json)>
    decreases entries.len(),
{
    if entries.len() == 0 {
        None
    } else {
        match first_fault(s, entries.drop_last()) {
            Some(f) => Some(f),
            None => match entry_fault(s, entries.last()) {
                Some(f) => Some((f, entries.last())),
                None => None,
            },
        }
    }
}

/// How many of some entries are of each type.
pub open spec fn type_counts(entries: Seq<Json>) -> Seq<(Seq<char>, int)>
    decreases entries.len(),
{
    if entries.len() == 0 {
        Seq::empty()
    } else {
        let rest = type_counts(entries.drop_last());
        match responses::type_in(entries.last()) {
            Some(kind) => counted(rest, kind, 1),
            None => rest,
        }
    }
}

/// What a response makes of a probe: it has a list that is not too long, and
/// every entry is sound.
pub open spec fn probe_of(s: Selection, c: MediaContext, response: Json) -> Probe {
    let media_type = marketplace::context_media_type(c);
    match probed_list(response) {
        None => Probe {
            media_type,
            status: "broken"@,
            failure_class: Some("invalid_response_shape"@),
            summary: no_list_message(),
            segment_count: 0,
            segment_type_counts: Seq::empty(),
            response_evidence: Json::Object(
                seq![
                    ("error"@, Json::Text(no_list_message())),
                    ("failure_class"@, Json::Text("invalid_response_shape"@)),
                    ("status"@, Json::Text("broken"@)),
                ],
            ),
        },
        Some(entries) => if entries.len() > consts::MEDIA_SEGMENT_PROVIDER_MAX_SEGMENTS {
            Probe {
                media_type,
                status: "broken"@,
                failure_class: Some("response_too_many_segments"@),
                summary: "provider returned "@ + text::decimal(entries.len())
                    + " segments; maximum is 128"@,
                segment_count: entries.len(),
                segment_type_counts: Seq::empty(),
                response_evidence: Json::Object(
                    seq![
                        ("failure_class"@, Json::Text("response_too_many_segments"@)),
                        ("segment_count"@, count_json(entries.len())),
                        ("status"@, Json::Text("broken"@)),
                    ],
                ),
            }
        } else {
            match first_fault(s, entries) {
                Some((fault, entry)) => faulty_probe(media_type, entries.len(), fault, entry),
                None => Probe {
                    media_type,
                    status: "certified"@,
                    failure_class: None,
                    summary: "valid response with "@ + text::decimal(entries.len())
                        + " segment(s)"@,
                    segment_count: entries.len(),
                    segment_type_counts: type_counts(entries),
                    response_evidence: Json::Object(
                        seq![
                            ("media_type"@, Json::Text(media_type)),
                            ("segment_count"@, count_json(entries.len())),
                            ("status"@, Json::Text("certified"@)),
                        ],
                    ),
                },
            }
        },
    }
}

proof fn lemma_fault_prefix(s: Selection, entries: Seq<Json>, i: int)
    requires
        0 <= i <= entries.len(),
        first_fault(s, entries.take(i)) is Some,
    ensures
        first_fault(s, entries) == first_fault(s, entries.take(i)),
    decreases entries.len() - i,
{
    if i < entries.len() {
        assert(entries.take(i + 1).drop_last() =~= entries.take(i));
        lemma_fault_prefix(s, entries, i + 1);
    } else {
        assert(entries.take(i) =~= entries);
    }
}

fn broken_shape(media_type: String) -> (r: MediaSegmentProviderCertificationProbe)
    ensures
        r@ == (Probe {
            media_type: media_type@,
            status: "broken"@,
            failure_class: Some("invalid_response_shape"@),
            summary: no_list_message(),
            segment_count: 0,
            segment_type_counts: Seq::empty(),
            response_evidence: Json::Object(
                seq![
                    ("error"@, Json::Text(no_list_message())),
                    ("failure_class"@, Json::Text("invalid_response_shape"@)),
                    ("status"@, Json::Text("broken"@)),
                ],
            ),
        }),
{
    let message = "media segment provider response must be an array or contain segments/results/data array";
    let mut o: Vec<(String, JsonValue)> = Vec::new();
    o.push(("error".to_owned(), text_value(message)));
    o.push(("failure_class".to_owned(), text_value("invalid_response_shape")));
    o.push(("status".to_owned(), text_value("broken")));
    let counts: Vec<(String, usize)> = Vec::new();
    proof {
        json::lemma_view_object(o);
        assert(json::members_of(o@) =~= seq![
            ("error"@, Json::Text(no_list_message())),
            ("failure_class"@, Json::Text("invalid_response_shape"@)),
            ("status"@, Json::Text("broken"@)),
        ]);
        assert(counts_of(counts@) =~= Seq::empty());
    }
    MediaSegmentProviderCertificationProbe {
        media_type,
        status: "broken".to_owned(),
        failure_class: Some("invalid_response_shape".to_owned()),
        summary: message.to_owned(),
        segment_count: 0,
        segment_type_counts: counts,
        response_evidence: JsonValue::Object(o),
    }
}

fn too_many(media_type: String, n: usize) -> (r: MediaSegmentProviderCertificationProbe)
    ensures
        r@ == (Probe {
            media_type: media_type@,
            status: "broken"@,
            failure_class: Some("response_too_many_segments"@),
            summary: "provider returned "@ + text::decimal(n as nat)
                + " segments; maximum is 128"@,
            segment_count: n as nat,
            segment_type_counts: Seq::empty(),
            response_evidence: Json::Object(
                seq![
                    ("failure_class"@, Json::Text("response_too_many_segments"@)),
                    ("segment_count"@, count_json(n as nat)),
                    ("status"@, Json::Text("broken"@)),
                ],
            ),
        }),
{
    let mut o: Vec<(String, JsonValue)> = Vec::new();
    o.push(("failure_class".to_owned(), text_value("response_too_many_segments")));
    o.push(("segment_count".to_owned(), JsonValue::Number(JsonNumber::Unsigned(n as u64))));
    o.push(("status".to_owned(), text_value("broken")));
    let counts: Vec<(String, usize)> = Vec::new();
    proof {
        json::lemma_view_object(o);
        assert(json::members_of(o@) =~= seq![
            ("failure_class"@, Json::Text("response_too_many_segments"@)),
            ("segment_count"@, count_json(n as nat)),
            ("status"@, Json::Text("broken"@)),
        ]);
        assert(counts_of(counts@) =~= Seq::empty());
    }
    let number_text = text::u64_text(n as u64);
    MediaSegmentProviderCertificationProbe {
        media_type,
        status: "broken".to_owned(),
        failure_class: Some("response_too_many_segments".to_owned()),
        summary: text::join3(
            "provider returned ",
            number_text.as_str(),
            " segments; maximum is 128",
        ),
        segment_count: n,
        segment_type_counts: counts,
        response_evidence: JsonValue::Object(o),
    }
}

fn certified_probe(media_type: String, n: usize, counts: Vec<(String, usize)>) -> (r:
    MediaSegmentProviderCertificationProbe)
    ensures
        r@ == (Probe {
            media_type: media_type@,
            status: "certified"@,
            failure_class: None,
            summary: "valid response with "@ + text::decimal(n as nat) + " segment(s)"@,
            segment_count: n as nat,
            segment_type_counts: counts_of(counts@),
            response_evidence: Json::Object(
                seq![
                    ("media_type"@, Json::Text(media_type@)),
                    ("segment_count"@, count_json(n as nat)),
                    ("status"@, Json::Text("certified"@)),
                ],
            ),
        }),
{
    let mut o: Vec<(String, JsonValue)> = Vec::new();
    o.push(("media_type".to_owned(), text_value(media_type.as_str())));
    o.push(("segment_count".to_owned(), JsonValue::Number(JsonNumber::Unsigned(n as u64))));
    o.push(("status".to_owned(), text_value("certified")));
    proof {
        json::lemma_view_object(o);
        assert(json::members_of(o@) =~= seq![
            ("media_type"@, Json::Text(media_type@)),
            ("segment_count"@, count_json(n as nat)),
            ("status"@, Json::Text("certified"@)),
        ]);
    }
    let number_text = text::u64_text(n as u64);
    MediaSegmentProviderCertificationProbe {
        media_type,
        status: "certified".to_owned(),
        failure_class: None,
        summary: text::join3("valid response with ", number_text.as_str(), " segment(s)"),
        segment_count: n,
        segment_type_counts: counts,
        response_evidence: JsonValue::Object(o),
    }
}

/// What is wrong with an entry of a probed response; where nothing is, its type.
fn check_entry(selected: &MarketplaceSegmentProviderSelection, value: &JsonValue) -> (r: Result<
    String,
    &'static str,
>)
    ensures
        match r {
            Ok(kind) => entry_fault(selected@, value@) is None && responses::type_in(value@)
                == Some(kind@),
            Err(f) => entry_fault(selected@, value@) == Some(f@),
        },
{
    let kind: String = match provider_segment_type(value) {
        Some(t) => t,
        None => {
            return Err("unsupported_segment_type");
        },
    };
    if !segment_provider_supports_segment_type(selected, kind.as_str()) {
        return Err("segment_type_outside_scope");
    }
    let start: i64 = match entry_start(value) {
        Some(t) => t,
        None => {
            return Err("missing_start_seconds");
        },
    };
    let end: i64 = match entry_end(value) {
        Some(t) => t,
        None => {
            return Err("missing_end_seconds");
        },
    };
    if end <= start {
        return Err("invalid_time_range");
    }
    Ok(kind)
}

/// What a response makes of a probe.
pub fn validate_media_segment_provider_certification_response(
    selected: &MarketplaceSegmentProviderSelection,
    context: &ProviderMediaContext,
    response: &JsonValue,
) -> (r: MediaSegmentProviderCertificationProbe)
    ensures
        r@ == probe_of(selected@, context@, response@),
{
    let media_type = marketplace_provider_media_type_for_context(context);
    let entries: &Vec<JsonValue> = match provider_segment_array_for_certification(response) {
        Ok(a) => a,
        Err(_) => {
            return broken_shape(media_type);
        },
    };
    let n: usize = entries.len();
    if n > consts::MEDIA_SEGMENT_PROVIDER_MAX_SEGMENTS {
        return too_many(media_type, n);
    }
    let ghost s = selected@;
    let ghost all = reading::elements_of(entries@);
    let mut counts: Vec<(String, usize)> = Vec::new();
    let mut i: usize = 0;
    proof {
        assert(all.take(0) =~= Seq::empty());
        assert(counts_of(counts@) =~= Seq::empty());
    }
    while i < n
        invariant
            i <= n == entries@.len(),
            n <= 128,
            s == selected@,
            media_type@ == marketplace::context_media_type(context@),
            all == reading::elements_of(entries@),
            probed_list(response@) == Some(all),
            first_fault(s, all.take(i as int)) is None,
            counts_of(counts@) == type_counts(all.take(i as int)),
            count_total(counts_of(counts@)) == i,
        decreases n - i,
    {
        proof {
            assert(all.take(i + 1).drop_last() =~= all.take(i as int));
            assert(all.take(i + 1).last() == entries@[i as int]@);
        }
        match check_entry(selected, &entries[i]) {
            Ok(kind) => {
                count(&mut counts, kind.as_str(), 1);
            },
            Err(fault) => {
                proof {
                    lemma_fault_prefix(s, all, i + 1);
                }
                return invalid_media_segment_provider_certification_segment(
                    media_type.as_str(),
                    n,
                    fault,
                    &entries[i],
                );
            },
        }
        i += 1;
    }
    proof {
        assert(all.take(n as int) =~= all);
    }
    certified_probe(media_type, n, counts)
}

/// A probe that could not be made, with the message of the error.
pub open spec fn failed_probe(c: MediaContext, message: Seq<char>) -> Probe {
    Probe {
        media_type: marketplace::context_media_type(c),
        status: "broken"@,
        failure_class: Some(normalize::probe_failure_class(message)),
        summary: message,
        segment_count: 0,
        segment_type_counts: Seq::empty(),
        response_evidence: Json::Object(
            seq![
                ("error"@, Json::Text(message)),
                ("media_type"@, Json::Text(marketplace::context_media_type(c))),
                ("status"@, Json::Text("broken"@)),
            ],
        ),
    }
}

/// What a probe came to: a response, or the message of an error.
pub fn run_media_segment_provider_certification_probe(
    selected: &MarketplaceSegmentProviderSelection,
    context: &ProviderMediaContext,
    reply: Result<JsonValue, String>,
) -> (r: MediaSegmentProviderCertificationProbe)
    ensures
        r@ == match reply {
            Ok(response) => probe_of(selected@, context@, response@),
            Err(message) => failed_probe(context@, message@),
        },
{
    match reply {
        Ok(response) => validate_media_segment_provider_certification_response(
            selected,
            context,
            &response,
        ),
        Err(message) => {
            let media_type = marketplace_provider_media_type_for_context(context);
            let failure = normalize::classify_media_segment_provider_certification_error(
                message.as_str(),
            );
            let mut o: Vec<(String, JsonValue)> = Vec::new();
            o.push(("error".to_owned(), text_value(message.as_str())));
            o.push(("media_type".to_owned(), text_value(media_type.as_str())));
            o.push(("status".to_owned(), text_value("broken")));
            let counts: Vec<(String, usize)> = Vec::new();
            proof {
                json::lemma_view_object(o);
                assert(json::members_of(o@) =~= failed_probe(
                    context@,
                    message@,
                ).response_evidence->Object_0);
                assert(counts_of(counts@) =~= Seq::empty());
            }
            MediaSegmentProviderCertificationProbe {
                media_type,
                status: "broken".to_owned(),
                failure_class: Some(failure),
                summary: message,
                segment_count: 0,
                segment_type_counts: counts,
                response_evidence: JsonValue::Object(o),
            }
        },
    }
}

/// Whether an entry of a probed response is sound: of a type that a provider may
/// name and that its provider is for, with a start before its end.
pub open spec fn sound_entry(s: Selection, entry: Json) -> bool {
    let kind = responses::type_in(entry);
    let start = reading::first_time(entry, marketplace::start_names());
    let end = reading::first_time(entry, marketplace::end_names());
    &&& kind is Some && responses::is_provider_type(kind->0) && s.segment_types.contains(kind->0)
    &&& start is Some && end is Some && start->0 < end->0
}

/// Whether a response has a list that is not too long, of sound entries alone.
pub open spec fn sound_response(s: Selection, response: Json) -> bool {
    &&& probed_list(response) is Some
    &&& probed_list(response)->0.len() <= consts::MEDIA_SEGMENT_PROVIDER_MAX_SEGMENTS
    &&& forall|i: int|
        0 <= i < probed_list(response)->0.len() ==> sound_entry(
            s,
            #[trigger] probed_list(response)->0[i],
        )
}

/// A probe is certified just where its response is sound, and broken, with a class of
/// failure, just where it is not. It counts every entry; a certified one counts each
/// under its type, and a broken one counts none under a type.
pub proof fn probes_certify_sound_responses(s: Selection, c: MediaContext, response: Json)
    ensures
        ({
            let p = probe_of(s, c, response);
            &&& p.status == "certified"@ <==> sound_response(s, response)
            &&& p.status == "broken"@ <==> !sound_response(s, response)
            &&& p.failure_class is None <==> sound_response(s, response)
            &&& p.segment_count == match probed_list(response) {
                Some(entries) => entries.len(),
                None => 0,
            }
            &&& sound_response(s, response) ==> count_total(p.segment_type_counts)
                == p.segment_count
            &&& !sound_response(s, response) ==> p.segment_type_counts.len() == 0
        }),
{
    reveal_strlit("certified");
    reveal_strlit("broken");
    assert("certified"@.len() == 9 && "broken"@.len() == 6);
    if probed_list(response) is Some {
        let entries = probed_list(response)->0;
        lemma_no_fault(s, entries);
        if first_fault(s, entries) is None {
            lemma_types_counted(s, entries);
        }
    }
}

proof fn lemma_no_fault(s: Selection, entries: Seq<Json>)
    ensures
        first_fault(s, entries) is None <==> forall|i: int|
            0 <= i < entries.len() ==> sound_entry(s, #[trigger] entries[i]),
    decreases entries.len(),
{
    if entries.len() > 0 {
        let rest = entries.drop_last();
        lemma_no_fault(s, rest);
        assert(entry_fault(s, entries.last()) is None <==> sound_entry(s, entries.last()));
        assert forall|i: int| 0 <= i < rest.len() implies entries[i] == #[trigger] rest[i] by {}
        if first_fault(s, entries) is None {
            assert forall|i: int| 0 <= i < entries.len() implies sound_entry(
                s,
                #[trigger] entries[i],
            ) by {
                if i < rest.len() {
                    assert(sound_entry(s, rest[i]));
                }
            }
        } else if first_fault(s, rest) is Some {
            let i = choose|i: int| 0 <= i < rest.len() && !sound_entry(s, #[trigger] rest[i]);
            assert(!sound_entry(s, entries[i]));
        } else {
            assert(!sound_entry(s, entries[entries.len() - 1]));
        }
    }
}

proof fn lemma_types_counted(s: Selection, entries: Seq<Json>)
    requires
        first_fault(s, entries) is None,
    ensures
        counts_sound(type_counts(entries)),
        count_total(type_counts(entries)) == entries.len(),
    decreases entries.len(),
{
    if entries.len() > 0 {
        lemma_types_counted(s, entries.drop_last());
        lemma_counted(
            type_counts(entries.drop_last()),
            responses::type_in(entries.last())->0,
            1,
        );
    }
}

/// A provider that serves no media type that can be probed.
pub open spec fn unsupported_probe() -> Probe {
    Probe {
        media_type: "unknown"@,
        status: "broken"@,
        failure_class: Some("unsupported_scope"@),
        summary: "provider scope does not include a certifiable media type"@,
        segment_count: 0,
        segment_type_counts: Seq::empty(),
        response_evidence: Json::Object(seq![("error"@, Json::Text("unsupported_scope"@))]),
    }
}

/// A provider that serves no media type that can be probed.
pub fn unsupported_scope_probe() -> (r: MediaSegmentProviderCertificationProbe)
    ensures
        r@ == unsupported_probe(),
{
    let mut o: Vec<(String, JsonValue)> = Vec::new();
    o.push(("error".to_owned(), text_value("unsupported_scope")));
    let counts: Vec<(String, usize)> = Vec::new();
    proof {
        json::lemma_view_object(o);
        assert(json::members_of(o@) =~= unsupported_probe().response_evidence->Object_0);
        assert(counts_of(counts@) =~= Seq::empty());
    }
    MediaSegmentProviderCertificationProbe {
        media_type: "unknown".to_owned(),
        status: "broken".to_owned(),
        failure_class: Some("unsupported_scope".to_owned()),
        summary: "provider scope does not include a certifiable media type".to_owned(),
        segment_count: 0,
        segment_type_counts: counts,
        response_evidence: JsonValue::Object(o),
    }
}

/// Some probes, as mathematical values.
pub open spec fn probes_of(v: Seq<MediaSegmentProviderCertificationProbe>) -> Seq<Probe> {
    v.map_values(|p: MediaSegmentProviderCertificationProbe| p@)
}

/// How many probes were certified.
pub open spec fn certified_count(probes: Seq<Probe>) -> nat
    decreases probes.len(),
{
    if probes.len() == 0 {
        0
    } else {
        certified_count(probes.drop_last()) + if probes.last().status == "certified"@ {
            1nat
        } else {
            0
        }
    }
}

/// The class of the first failure.
pub open spec fn first_failure(probes: Seq<Probe>) -> Option<Seq<char>>
    decreases probes.len(),
{
    if probes.len() == 0 {
        None
    } else if probes[0].failure_class is Some {
        probes[0].failure_class
    } else {
        first_failure(probes.drop_first())
    }
}

fn count_certified(probes: &Vec<MediaSegmentProviderCertificationProbe>) -> (r: usize)
    ensures
        r == certified_count(probes_of(probes@)),
        r <= probes@.len(),
{
    let ghost all = probes_of(probes@);
    let mut n: usize = 0;
    let mut i: usize = 0;
    proof {
        assert(all.take(0) =~= Seq::empty());
    }
    while i < probes.len()
        invariant
            i <= probes@.len(),
            n <= i,
            all == probes_of(probes@),
            n == certified_count(all.take(i as int)),
        decreases probes@.len() - i,
    {
        proof {
            assert(all.take(i + 1).drop_last() =~= all.take(i as int));
            assert(all.take(i + 1).last() == probes@[i as int]@);
        }
        if text::str_eq(probes[i].status.as_str(), "certified") {
            n += 1;
        }
        i += 1;
    }
    proof {
        assert(all.take(probes@.len() as int) =~= all);
    }
    n
}

fn find_failure(probes: &Vec<MediaSegmentProviderCertificationProbe>) -> (r: Option<String>)
    ensures
        opt_text(r) == first_failure(probes_of(probes@)),
{
    let ghost all = probes_of(probes@);
    let mut i: usize = 0;
    proof {
        assert(all.skip(0) =~= all);
    }
    while i < probes.len()
        invariant
            i <= probes@.len(),
            all == probes_of(probes@),
            first_failure(all) == first_failure(all.skip(i as int)),
        decreases probes@.len() - i,
    {
        proof {
            assert(all.skip(i as int)[0] == probes@[i as int]@);
            assert(all.skip(i as int).drop_first() =~= all.skip(i + 1));
        }
        if let Some(f) = &probes[i].failure_class {
            return Some(f.clone());
        }
        i += 1;
    }
    None
}

/// What is said of a certification in one line.
pub open spec fn certification_summary(status: Seq<char>, probes: Seq<Probe>) -> Seq<char> {
    let certified = certified_count(probes);
    if status == "certified"@ {
        text::decimal(certified) + "/"@ + text::decimal(probes.len()) + " probe(s) certified"@
    } else {
        text::decimal((probes.len() - certified) as nat) + "/"@ + text::decimal(probes.len())
            + " probe(s) failed certification"@
    }
}

/// What is said of a certification in one line.
pub fn media_segment_provider_certification_summary(
    status: &str,
    probes: &Vec<MediaSegmentProviderCertificationProbe>,
) -> (r: String)
    ensures
        r@ == certification_summary(status@, probes_of(probes@)),
{
    let certified: usize = count_certified(probes);
    let total: usize = probes.len();
    let total_text = text::u64_text(total as u64);
    if text::str_eq(status, "certified") {
        let n = text::u64_text(certified as u64);
        let mut r = text::join3(n.as_str(), "/", total_text.as_str());
        r.append(" probe(s) certified");
        r
    } else {
        let broken: usize = total - certified;
        let n = text::u64_text(broken as u64);
        let mut r = text::join3(n.as_str(), "/", total_text.as_str());
        r.append(" probe(s) failed certification");
        r
    }
}

/// What is kept of one probe.
pub open spec fn media_type_result(p: Probe) -> Json {
    Json::Object(
        seq![
            ("failure_class"@, json::opt_text_json(p.failure_class)),
            ("segment_count"@, count_json(p.segment_count)),
            ("status"@, Json::Text(p.status)),
            ("summary"@, Json::Text(p.summary)),
        ],
    )
}

/// What is kept of some probes, by their media type; of two of one type the
/// later stays.
pub open spec fn media_type_results(probes: Seq<Probe>) -> Seq<(Seq<char>, Json)>
    decreases probes.len(),
{
    if probes.len() == 0 {
        Seq::empty()
    } else {
        json::with_member(
            media_type_results(probes.drop_last()),
            probes.last().media_type,
            media_type_result(probes.last()),
        )
    }
}

fn media_type_result_value(p: &MediaSegmentProviderCertificationProbe) -> (v: JsonValue)
    ensures
        v@ == media_type_result(p@),
{
    let mut o: Vec<(String, JsonValue)> = Vec::new();
    o.push(("failure_class".to_owned(), opt_text_value(&p.failure_class)));
    o.push(
        (
            "segment_count".to_owned(),
            JsonValue::Number(JsonNumber::Unsigned(p.segment_count as u64)),
        ),
    );
    o.push(("status".to_owned(), text_value(p.status.as_str())));
    o.push(("summary".to_owned(), text_value(p.summary.as_str())));
    proof {
        json::lemma_view_object(o);
        assert(json::members_of(o@) =~= media_type_result(p@)->Object_0);
    }
    JsonValue::Object(o)
}

/// What is kept of some probes, by their media type.
pub fn media_segment_provider_certification_media_type_results(
    probes: &Vec<MediaSegmentProviderCertificationProbe>,
) -> (v: JsonValue)
    ensures
        v@ == Json::Object(media_type_results(probes_of(probes@))),
{
    let ghost all = probes_of(probes@);
    let mut o: Vec<(String, JsonValue)> = Vec::new();
    let mut i: usize = 0;
    proof {
        assert(all.take(0) =~= Seq::empty());
        assert(json::members_of(o@) =~= Seq::empty());
    }
    while i < probes.len()
        invariant
            i <= probes@.len(),
            all == probes_of(probes@),
            json::members_of(o@) == media_type_results(all.take(i as int)),
        decreases probes@.len() - i,
    {
        proof {
            assert(all.take(i + 1).drop_last() =~= all.take(i as int));
            assert(all.take(i + 1).last() == probes@[i as int]@);
        }
        let value = media_type_result_value(&probes[i]);
        json::set_member(&mut o, probes[i].media_type.as_str(), value);
        i += 1;
    }
    proof {
        assert(all.take(probes@.len() as int) =~= all);
        json::lemma_view_object(o);
    }
    JsonValue::Object(o)
}

/// Some counts with those of others added one by one.
pub open spec fn merged_counts(a: Seq<(Seq<char>, int)>, b: Seq<(Seq<char>, int)>) -> Seq<
    (Seq<char>, int),
>
    decreases b.len(),
{
    if b.len() == 0 {
        a
    } else {
        counted(merged_counts(a, b.drop_last()), b.last().0, b.last().1)
    }
}

/// How many segments of each type there were in all probes.
pub open spec fn all_counts(probes: Seq<Probe>) -> Seq<(Seq<char>, int)>
    decreases probes.len(),
{
    if probes.len() == 0 {
        Seq::empty()
    } else {
        merged_counts(all_counts(probes.drop_last()), probes.last().segment_type_counts)
    }
}

/// How many segments were counted in all probes.
pub open spec fn probes_total(probes: Seq<Probe>) -> int
    decreases probes.len(),
{
    if probes.len() == 0 {
        0
    } else {
        probes_total(probes.drop_last()) + count_sum(probes.last().segment_type_counts)
    }
}

/// The sum of some counts, from the first to the last.
pub open spec fn count_sum(counts: Seq<(Seq<char>, int)>) -> int
    decreases counts.len(),
{
    if counts.len() == 0 {
        0
    } else {
        count_sum(counts.drop_last()) + counts.last().1
    }
}

proof fn lemma_sum_prefix(counts: Seq<(Seq<char>, int)>, i: int)
    requires
        counts_sound(counts),
        0 <= i <= counts.len(),
    ensures
        0 <= count_sum(counts.take(i)) <= count_sum(counts),
    decreases counts.len(),
{
    if i < counts.len() {
        let rest = counts.drop_last();
        assert forall|k: int| 0 <= k < rest.len() implies (#[trigger] rest[k]).1 >= 0 by {
            assert(counts[k].1 >= 0);
        }
        lemma_sum_prefix(rest, i);
        assert(rest.take(i) =~= counts.take(i));
        assert(counts[counts.len() - 1].1 >= 0);
    } else {
        assert(counts.take(i) =~= counts);
        if counts.len() > 0 {
            let rest = counts.drop_last();
            assert forall|k: int| 0 <= k < rest.len() implies (#[trigger] rest[k]).1 >= 0 by {
                assert(counts[k].1 >= 0);
            }
            lemma_sum_prefix(rest, rest.len() as int);
            assert(rest.take(rest.len() as int) =~= rest);
            assert(counts[counts.len() - 1].1 >= 0);
        }
    }
}

proof fn lemma_total_prefix(v: Seq<MediaSegmentProviderCertificationProbe>, i: int)
    requires
        0 <= i <= v.len(),
    ensures
        0 <= probes_total(probes_of(v).take(i)) <= probes_total(probes_of(v)),
    decreases v.len(),
{
    let all = probes_of(v);
    if v.len() > 0 {
        let rest = v.drop_last();
        assert(probes_of(rest) =~= all.drop_last());
        let last = counts_of(v.last().segment_type_counts@);
        assert(all.last().segment_type_counts == last);
        lemma_sum_prefix(last, last.len() as int);
        assert(last.take(last.len() as int) =~= last);
        if i < v.len() {
            lemma_total_prefix(rest, i);
            assert(probes_of(rest).take(i) =~= all.take(i));
        } else {
            lemma_total_prefix(rest, rest.len() as int);
            assert(probes_of(rest).take(rest.len() as int) =~= probes_of(rest));
            assert(all.take(i) =~= all);
        }
    } else {
        assert(all.take(i) =~= all);
    }
}

fn add_counts(counts: &mut Vec<(String, usize)>, more: &Vec<(String, usize)>)
    requires
        count_total(counts_of(old(counts)@)) + count_sum(counts_of(more@)) <= usize::MAX,
    ensures
        counts_of(final(counts)@) == merged_counts(counts_of(old(counts)@), counts_of(more@)),
        count_total(counts_of(final(counts)@)) == count_total(counts_of(old(counts)@)) + count_sum(
            counts_of(more@),
        ),
{
    let ghost before = counts_of(counts@);
    let ghost all = counts_of(more@);
    let mut i: usize = 0;
    proof {
        assert(all.take(0) =~= Seq::empty());
    }
    while i < more.len()
        invariant
            i <= more@.len(),
            all == counts_of(more@),
            counts_of(counts@) == merged_counts(before, all.take(i as int)),
            count_total(counts_of(counts@)) == count_total(before) + count_sum(all.take(i as int)),
            count_total(before) + count_sum(all) <= usize::MAX,
        decreases more@.len() - i,
    {
        proof {
            assert(all.take(i + 1).drop_last() =~= all.take(i as int));
            assert(all.take(i + 1).last() == all[i as int]);
            lemma_sum_prefix(all, i + 1);
        }
        count(counts, more[i].0.as_str(), more[i].1);
        i += 1;
    }
    proof {
        assert(all.take(more@.len() as int) =~= all);
    }
}

/// The JSON form of some counts.
pub open spec fn counts_json(counts: Seq<(Seq<char>, int)>) -> Json {
    Json::Object(counts.map_values(|c: (Seq<char>, int)| (c.0, count_json(c.1 as nat))))
}

/// How many segments of each type there were in all probes.
pub fn media_segment_provider_certification_segment_type_results(
    probes: &Vec<MediaSegmentProviderCertificationProbe>,
) -> (v: JsonValue)
    requires
        probes_total(probes_of(probes@)) <= usize::MAX,
    ensures
        v@ == counts_json(all_counts(probes_of(probes@))),
{
    let ghost all = probes_of(probes@);
    let mut counts: Vec<(String, usize)> = Vec::new();
    let mut i: usize = 0;
    proof {
        assert(all.take(0) =~= Seq::empty());
        assert(counts_of(counts@) =~= Seq::empty());
    }
    while i < probes.len()
        invariant
            i <= probes@.len(),
            all == probes_of(probes@),
            probes_total(all) <= usize::MAX,
            counts_of(counts@) == all_counts(all.take(i as int)),
            count_total(counts_of(counts@)) == probes_total(all.take(i as int)),
        decreases probes@.len() - i,
    {
        proof {
            assert(all.take(i + 1).drop_last() =~= all.take(i as int));
            assert(all.take(i + 1).last() == probes@[i as int]@);
            lemma_total_prefix(probes@, i + 1);
        }
        add_counts(&mut counts, &probes[i].segment_type_counts);
        i += 1;
    }
    proof {
        assert(all.take(probes@.len() as int) =~= all);
    }
    let ghost views = counts_of(counts@);
    let mut o: Vec<(String, JsonValue)> = Vec::new();
    let mut j: usize = 0;
    proof {
        assert(json::members_of(o@) =~= counts_json(views.take(0))->Object_0);
    }
    while j < counts.len()
        invariant
            j <= counts@.len(),
            views == counts_of(counts@),
            json::members_of(o@) == counts_json(views.take(j as int))->Object_0,
        decreases counts@.len() - j,
    {
        let ghost now = json::members_of(o@);
        let value = JsonValue::Number(JsonNumber::Unsigned(counts[j].1 as u64));
        o.push((counts[j].0.clone(), value));
        proof {
            assert(json::members_of(o@) =~= now.push((counts@[j as int].0@, value@)));
            assert(counts_json(views.take(j + 1))->Object_0 =~= now.push(
                (counts@[j as int].0@, value@),
            ));
        }
        j += 1;
    }
    proof {
        assert(views.take(counts@.len() as int) =~= views);
        json::lemma_view_object(o);
    }
    JsonValue::Object(o)
}

/// What was probed, and how it went.
pub open spec fn probe_target(p: Probe) -> Json {
    Json::Object(
        seq![("media_type"@, Json::Text(p.media_type)), ("status"@, Json::Text(p.status))],
    )
}

/// What was probed, and how it went.
pub fn media_segment_provider_certification_probe_targets(
    probes: &Vec<MediaSegmentProviderCertificationProbe>,
) -> (v: JsonValue)
    ensures
        v@ == Json::Array(probes_of(probes@).map_values(|p: Probe| probe_target(p))),
{
    let ghost all = probes_of(probes@).map_values(|p: Probe| probe_target(p));
    let mut out: Vec<JsonValue> = Vec::new();
    let mut i: usize = 0;
    while i < probes.len()
        invariant
            i <= probes@.len(),
            out@.len() == i,
            all == probes_of(probes@).map_values(|p: Probe| probe_target(p)),
            forall|j: int| 0 <= j < i ==> #[trigger] out@[j]@ == all[j],
        decreases probes@.len() - i,
    {
        let mut o: Vec<(String, JsonValue)> = Vec::new();
        o.push(("media_type".to_owned(), text_value(probes[i].media_type.as_str())));
        o.push(("status".to_owned(), text_value(probes[i].status.as_str())));
        proof {
            json::lemma_view_object(o);
            assert(json::members_of(o@) =~= probe_target(probes@[i as int]@)->Object_0);
        }
        out.push(JsonValue::Object(o));
        i += 1;
    }
    proof {
        assert forall|j: int| 0 <= j < all.len() implies #[trigger] all[j] == json::json_of(
            out@[j],
        ) by {
            assert(out@[j]@ == all[j]);
        }
        json::lemma_view_array(out, all);
    }
    JsonValue::Array(out)
}

fn evidence_list(probes: &Vec<MediaSegmentProviderCertificationProbe>) -> (v: JsonValue)
    ensures
        v@ == Json::Array(probes_of(probes@).map_values(|p: Probe| p.response_evidence)),
{
    let ghost all = probes_of(probes@).map_values(|p: Probe| p.response_evidence);
    let mut out: Vec<JsonValue> = Vec::new();
    let mut i: usize = 0;
    while i < probes.len()
        invariant
            i <= probes@.len(),
            out@.len() == i,
            all == probes_of(probes@).map_values(|p: Probe| p.response_evidence),
            forall|j: int| 0 <= j < i ==> #[trigger] out@[j]@ == all[j],
        decreases probes@.len() - i,
    {
        out.push(probes[i].response_evidence.dup());
        i += 1;
    }
    proof {
        assert forall|j: int| 0 <= j < all.len() implies #[trigger] all[j] == json::json_of(
            out@[j],
        ) by {
            assert(out@[j]@ == all[j]);
        }
        json::lemma_view_array(out, all);
    }
    JsonValue::Array(out)
}

/// A certification of a provider.
#[derive(Debug, Clone)]
pub struct MediaSegmentProviderCertificationRecord {
    pub certification_id: String,
    pub provider_id: String,
    pub instance_id: String,
    pub provider_kind: String,
    pub status: String,
    pub failure_class: Option<String>,
    pub summary: Option<String>,
    pub media_type_results: JsonValue,
    pub segment_type_results: JsonValue,
    pub probe_targets: JsonValue,
    pub response_evidence: JsonValue,
    pub runtime_version: Option<String>,
    pub policy_version: String,
    pub certified_at: Option<String>,
    pub expires_at: Option<String>,
    pub created_at: Option<String>,
    pub updated_at: Option<String>,
}

/// The status of a certification: every probe has to be certified.
pub open spec fn certification_status(probes: Seq<Probe>) -> Seq<char> {
    if certified_count(probes) == probes.len() {
        "certified"@
    } else {
        "broken"@
    }
}

/// How many seconds a certification lasts.
pub const CERTIFIED_FOR_SECONDS: i64 =
    consts::MEDIA_SEGMENT_PROVIDER_CERTIFICATION_EXPIRES_DAYS * 86_400;

/// Whether a record is the certification that some probes of a second lead to.
pub open spec fn certifies(
    r: MediaSegmentProviderCertificationRecord,
    certification_id: Seq<char>,
    s: Selection,
    provider_kind: Seq<char>,
    probes: Seq<Probe>,
    now: i64,
) -> bool {
    let status = certification_status(probes);
    &&& r.certification_id@ == certification_id
    &&& r.provider_id@ == s.provider_id
    &&& r.instance_id@ == s.instance_id
    &&& r.provider_kind@ == provider_kind
    &&& r.status@ == status
    &&& opt_text(r.failure_class) == first_failure(probes)
    &&& opt_text(r.summary) == Some(certification_summary(status, probes))
    &&& r.media_type_results@ == Json::Object(media_type_results(probes))
    &&& r.segment_type_results@ == counts_json(all_counts(probes))
    &&& r.probe_targets@ == Json::Array(probes.map_values(|p: Probe| probe_target(p)))
    &&& r.response_evidence@ == Json::Array(probes.map_values(|p: Probe| p.response_evidence))
    &&& opt_text(r.runtime_version) == Some(
        match s.runtime_version {
            Some(v) => v,
            None => s.extension_version,
        },
    )
    &&& r.policy_version@ == consts::MEDIA_SEGMENT_PROVIDER_CERTIFICATION_POLICY_VERSION@
    &&& opt_text(r.certified_at) == if status == "certified"@ {
        Some(outside::utc_text(now))
    } else {
        None
    }
    &&& opt_text(r.expires_at) == Some(outside::utc_text((now + CERTIFIED_FOR_SECONDS) as i64))
    &&& r.created_at is None
    &&& r.updated_at is None
}

/// The kind of a provider that is certified, or why it is refused.
pub open spec fn certified_kind(s: Selection) -> Result<Seq<char>, Seq<char>> {
    match s.implementation {
        Some(i) => normalize::provider_id_of(i),
        None => Err("media segment provider implementation is missing"@),
    }
}

/// The kind of a provider that is certified.
pub fn certification_provider_kind(selected: &MarketplaceSegmentProviderSelection) -> (r: Result<
    String,
    SegmentError,
>)
    ensures
        error::text_agrees(r, certified_kind(selected@)),
{
    match &selected.implementation {
        Some(i) => normalize_provider_id(i.as_str()),
        None => Err(refuse("media segment provider implementation is missing")),
    }
}

/// The certification that some probes of the second `now` lead to. The times of the record's own
/// making are left to whoever stores it.
pub fn certify_media_segment_provider(
    certification_id: &str,
    selected: &MarketplaceSegmentProviderSelection,
    provider_kind: &str,
    probes: &Vec<MediaSegmentProviderCertificationProbe>,
    now: i64,
) -> (r: MediaSegmentProviderCertificationRecord)
    requires
        probes_total(probes_of(probes@)) <= usize::MAX,
        outside::in_calendar(now as int),
        outside::in_calendar(now + CERTIFIED_FOR_SECONDS),
    ensures
        certifies(
            r,
            certification_id@,
            selected@,
            provider_kind@,
            probes_of(probes@),
            now,
        ),
{
    let all_certified = count_certified(probes) == probes.len();
    let status = if all_certified {
        "certified"
    } else {
        "broken"
    };
    proof {
        reveal_strlit("certified");
        reveal_strlit("broken");
        assert("certified"@.len() == 9 && "broken"@.len() == 6);
    }
    let certified_at = if all_certified {
        Some(jobs::timestamp_after(now, 0))
    } else {
        None
    };
    let runtime_version = match &selected.runtime_version {
        Some(v) => Some(v.clone()),
        None => Some(selected.extension_version.clone()),
    };
    MediaSegmentProviderCertificationRecord {
        certification_id: certification_id.to_owned(),
        provider_id: selected.provider_id.clone(),
        instance_id: selected.instance_id.clone(),
        provider_kind: provider_kind.to_owned(),
        status: status.to_owned(),
        failure_class: find_failure(probes),
        summary: Some(media_segment_provider_certification_summary(status, probes)),
        media_type_results: media_segment_provider_certification_media_type_results(probes),
        segment_type_results: media_segment_provider_certification_segment_type_results(probes),
        probe_targets: media_segment_provider_certification_probe_targets(probes),
        response_evidence: evidence_list(probes),
        runtime_version,
        policy_version: consts::MEDIA_SEGMENT_PROVIDER_CERTIFICATION_POLICY_VERSION.to_owned(),
        certified_at,
        expires_at: Some(jobs::timestamp_after(now, CERTIFIED_FOR_SECONDS)),
        created_at: None,
        updated_at: None,
    }
}

/// One broken probe breaks the certification.
pub proof fn certification_needs_every_probe(probes: Seq<Probe>, i: int)
    requires
        0 <= i < probes.len(),
        probes[i].status != "certified"@,
    ensures
        certification_status(probes) == "broken"@,
{
    lemma_certified_count(probes, i);
}

proof fn lemma_certified_count(probes: Seq<Probe>, i: int)
    ensures
        certified_count(probes) <= probes.len(),
        0 <= i < probes.len() && probes[i].status != "certified"@ ==> certified_count(probes)
            < probes.len(),
    decreases probes.len(),
{
    if probes.len() > 0 {
        lemma_certified_count(probes.drop_last(), i);
    }
}

/// What is wrong with an entry of a probed response: its type is not known, or not
/// one its provider is for; it has no start or no end, or does not end after it
/// starts. Any other entry is sound.
pub proof fn faults_of_entries(s: Selection, entry: Json)
    ensures
        ({
            let kind = responses::type_in(entry);
            let start = reading::first_time(
                entry,
                seq!["start_sec"@, "start_seconds"@, "start"@],
            );
            let end = reading::first_time(entry, seq!["end_sec"@, "end_seconds"@, "end"@]);
            let fault = entry_fault(s, entry);
            let wanted = kind is Some && s.segment_types.contains(kind->0);
            &&& fault == Some("unsupported_segment_type"@) <==> kind is None
            &&& fault == Some("segment_type_outside_scope"@) <==> kind is Some && !wanted
            &&& fault == Some("missing_start_seconds"@) <==> wanted && start is None
            &&& fault == Some("missing_end_seconds"@) <==> wanted && start is Some && end is None
            &&& fault == Some("invalid_time_range"@) <==> wanted && start is Some && end is Some
                && end->0 <= start->0
            &&& fault is None <==> wanted && start is Some && end is Some && start->0 < end->0
        }),
{
    lemma_faults_differ();
}

proof fn lemma_faults_differ()
    ensures
        "unsupported_segment_type"@ != "segment_type_outside_scope"@,
        "unsupported_segment_type"@ != "missing_start_seconds"@,
        "unsupported_segment_type"@ != "missing_end_seconds"@,
        "unsupported_segment_type"@ != "invalid_time_range"@,
        "segment_type_outside_scope"@ != "missing_start_seconds"@,
        "segment_type_outside_scope"@ != "missing_end_seconds"@,
        "segment_type_outside_scope"@ != "invalid_time_range"@,
        "missing_start_seconds"@ != "missing_end_seconds"@,
        "missing_start_seconds"@ != "invalid_time_range"@,
        "missing_end_seconds"@ != "invalid_time_range"@,
{
    reveal_strlit("unsupported_segment_type");
    reveal_strlit("segment_type_outside_scope");
    reveal_strlit("missing_start_seconds");
    reveal_strlit("missing_end_seconds");
    reveal_strlit("invalid_time_range");
    assert("unsupported_segment_type"@.len() == 24);
    assert("segment_type_outside_scope"@.len() == 26);
    assert("missing_start_seconds"@.len() == 21);
    assert("missing_end_seconds"@.len() == 19);
    assert("invalid_time_range"@.len() == 18);
}

/// The first faulty entry breaks a probe, and tells why: a response of at most 128
/// entries is certified just where none is faulty. More entries, and a response
/// without a list, break it as well.
pub proof fn first_faults_break_probes(s: Selection, c: MediaContext, response: Json, i: int)
    ensures
        ({
            let p = probe_of(s, c, response);
            let list = probed_list(response);
            &&& list is None ==> p.status == "broken"@ && p.failure_class == Some(
                "invalid_response_shape"@,
            ) && p.segment_count == 0
            &&& list is Some && list->0.len() > 128 ==> p.status == "broken"@ && p.failure_class
                == Some("response_too_many_segments"@) && p.segment_count == list->0.len()
            &&& list is Some && list->0.len() <= 128 && 0 <= i < list->0.len() && entry_fault(
                s,
                list->0[i],
            ) is Some && (forall|k: int|
                0 <= k < i ==> entry_fault(s, #[trigger] list->0[k]) is None) ==> p.status
                == "broken"@ && p.failure_class == entry_fault(s, list->0[i]) && p.segment_count
                == list->0.len()
            &&& list is Some && list->0.len() <= 128 && (forall|k: int|
                0 <= k < list->0.len() ==> entry_fault(s, #[trigger] list->0[k]) is None)
                ==> p.status == "certified"@ && p.failure_class is None && p.segment_count
                == list->0.len()
            &&& p.media_type == marketplace::context_media_type(c)
        }),
{
    let list = probed_list(response);
    if list is Some {
        let entries = list->0;
        if 0 <= i < entries.len() && entry_fault(s, entries[i]) is Some && (forall|k: int|
            0 <= k < i ==> entry_fault(s, #[trigger] entries[k]) is None) {
            lemma_first_fault_at(s, entries, i);
        }
        if forall|k: int| 0 <= k < entries.len() ==> entry_fault(s, #[trigger] entries[k]) is None {
            lemma_free_of_faults(s, entries);
        }
    }
}

proof fn lemma_free_of_faults(s: Selection, entries: Seq<Json>)
    requires
        forall|k: int| 0 <= k < entries.len() ==> entry_fault(s, #[trigger] entries[k]) is None,
    ensures
        first_fault(s, entries) is None,
    decreases entries.len(),
{
    if entries.len() > 0 {
        let rest = entries.drop_last();
        assert forall|k: int| 0 <= k < rest.len() implies entry_fault(
            s,
            #[trigger] rest[k],
        ) is None by {
            assert(entry_fault(s, entries[k]) is None);
        }
        lemma_free_of_faults(s, rest);
        assert(entry_fault(s, entries[entries.len() - 1]) is None);
    }
}

proof fn lemma_first_fault_at(s: Selection, entries: Seq<Json>, i: int)
    requires
        0 <= i < entries.len(),
        entry_fault(s, entries[i]) is Some,
        forall|k: int| 0 <= k < i ==> entry_fault(s, #[trigger] entries[k]) is None,
    ensures
        first_fault(s, entries) == Some((entry_fault(s, entries[i])->0, entries[i])),
    decreases entries.len(),
{
    let rest = entries.drop_last();
    if i < rest.len() {
        assert(rest[i] == entries[i]);
        assert forall|k: int| 0 <= k < i implies entry_fault(s, #[trigger] rest[k]) is None by {
            assert(entry_fault(s, entries[k]) is None);
        }
        lemma_first_fault_at(s, rest, i);
    } else {
        assert forall|k: int| 0 <= k < rest.len() implies entry_fault(
            s,
            #[trigger] rest[k],
        ) is None by {
            assert(entry_fault(s, entries[k]) is None);
        }
        lemma_free_of_faults(s, rest);
    }
}

/// A provider is probed once for each media type that its scope names, whatever
/// the words it uses: films, series and anime.
pub proof fn providers_are_probed_for_what_they_serve(s: Selection)
    ensures
        forall|k: Seq<char>| #[trigger]
            probe_types(s).contains(k) <==> (k == "movie"@ || k == "series"@ || k == "anime"@)
                && exists|i: int|
                0 <= i < s.media_types.len() && normalize::media_type_of(
                    #[trigger] s.media_types[i],
                ) == Some(k),
        probe_types(s).no_duplicates(),
{
    lemma_media_types_differ();
    let all = Seq::<Seq<char>>::empty();
    let r = probe_types(s);
    assert forall|k: Seq<char>| #[trigger] r.contains(k) <==> (k == "movie"@ || k == "series"@ || k
        == "anime"@) && names_type(s.media_types, k) by {
        let a = if names_type(s.media_types, "movie"@) {
            all.push("movie"@)
        } else {
            all
        };
        let b = if names_type(s.media_types, "series"@) {
            a.push("series"@)
        } else {
            a
        };
        if names_type(s.media_types, k) {
            if k == "movie"@ {
                assert(a[0] == k);
                assert(r[0] == k);
            } else if k == "series"@ {
                assert(b[b.len() - 1] == k);
                assert(r[b.len() - 1] == k);
            } else if k == "anime"@ {
                assert(r[r.len() - 1] == k);
            }
        }
    }
}

proof fn lemma_media_types_differ()
    ensures
        "movie"@ != "series"@,
        "movie"@ != "anime"@,
        "series"@ != "anime"@,
{
    reveal_strlit("movie");
    reveal_strlit("series");
    reveal_strlit("anime");
    assert("movie"@.len() == 5);
    assert("series"@.len() == 6);
    assert("anime"@.len() == 5);
    assert("movie"@[0] == 'm');
    assert("anime"@[0] == 'a');
}

/// A provider is probed for a media type with a film or episode of that type, of a
/// known length and with identifiers.
pub proof fn probes_are_of_their_media_type(k: Seq<char>)
    requires
        k == "movie"@ || k == "series"@ || k == "anime"@,
    ensures
        marketplace::context_media_type(probe_context(k)) == k,
        probe_context(k).duration is Some,
        probe_context(k).duration->0 > 0,
        k == "movie"@ || k == "series"@ ==> probe_context(k).imdb_id is Some,
        k == "anime"@ ==> probe_context(k).mal_id is Some && probe_context(k).anilist_id is Some,
        k != "movie"@ ==> probe_context(k).season_number == Some(1i32) && probe_context(
            k,
        ).episode_number == Some(1i32) && probe_context(k).absolute_episode_number == Some(1i32),
{
    lemma_media_types_differ();
    reveal_strlit("episode");
    reveal_strlit("movie");
    assert("episode"@.len() == 7 && "movie"@.len() == 5);
}

/// A provider is certified just where every probe is, for thirty days; whether or
/// not it is, what it was certified under expires then. The class of the first
/// failure is kept.
pub proof fn certifications_last_thirty_days(
    r: MediaSegmentProviderCertificationRecord,
    certification_id: Seq<char>,
    s: Selection,
    provider_kind: Seq<char>,
    probes: Seq<Probe>,
    now: i64,
)
    requires
        certifies(r, certification_id, s, provider_kind, probes, now),
        -1_000_000_000_000 <= now <= 1_000_000_000_000,
    ensures
        ({
            let all = forall|i: int|
                0 <= i < probes.len() ==> (#[trigger] probes[i]).status == "certified"@;
            &&& all ==> r.status@ == "certified"@ && r.certified_at is Some && r.certified_at->0@
                == outside::utc_text(now)
            &&& !all ==> r.status@ == "broken"@ && r.certified_at is None
        }),
        r.expires_at is Some && r.expires_at->0@ == outside::utc_text((now + 2_592_000) as i64),
        r.certification_id@ == certification_id,
        r.provider_id@ == s.provider_id,
        r.instance_id@ == s.instance_id,
        r.provider_kind@ == provider_kind,
        r.policy_version@ == "midm-segment-provider-cert-v1"@,
        r.runtime_version is Some,
        s.runtime_version is Some ==> r.runtime_version->0@ == s.runtime_version->0,
        s.runtime_version is None ==> r.runtime_version->0@ == s.extension_version,
        forall|i: int|
            0 <= i < probes.len() && (#[trigger] probes[i]).failure_class is Some && (forall|k: int|
                0 <= k < i ==> (#[trigger] probes[k]).failure_class is None)
                ==> r.failure_class is Some && r.failure_class->0@ == probes[i].failure_class->0,
        (forall|i: int| 0 <= i < probes.len() ==> (#[trigger] probes[i]).failure_class is None)
            ==> r.failure_class is None,
{
    reveal_strlit("certified");
    reveal_strlit("broken");
    assert("certified"@.len() == 9 && "broken"@.len() == 6);
    lemma_all_certified(probes);
    assert forall|i: int|
        0 <= i < probes.len() && (#[trigger] probes[i]).failure_class is Some && (forall|k: int|
            0 <= k < i ==> (#[trigger] probes[k]).failure_class is None) implies first_failure(
        probes,
    ) == probes[i].failure_class by {
        lemma_first_failure_at(probes, i);
    }
    if forall|i: int| 0 <= i < probes.len() ==> (#[trigger] probes[i]).failure_class is None {
        lemma_no_failure(probes);
    }
}

proof fn lemma_all_certified(probes: Seq<Probe>)
    ensures
        certified_count(probes) <= probes.len(),
        certified_count(probes) == probes.len() <==> forall|i: int|
            0 <= i < probes.len() ==> (#[trigger] probes[i]).status == "certified"@,
    decreases probes.len(),
{
    if probes.len() > 0 {
        let rest = probes.drop_last();
        lemma_all_certified(rest);
        if certified_count(probes) == probes.len() {
            assert forall|i: int| 0 <= i < probes.len() implies (#[trigger] probes[i]).status
                == "certified"@ by {
                if i < rest.len() {
                    assert(rest[i].status == "certified"@);
                }
            }
        }
        if forall|i: int| 0 <= i < probes.len() ==> (#[trigger] probes[i]).status == "certified"@ {
            assert forall|i: int| 0 <= i < rest.len() implies (#[trigger] rest[i]).status
                == "certified"@ by {
                assert(probes[i].status == "certified"@);
            }
            assert(probes[probes.len() - 1].status == "certified"@);
        }
    }
}

proof fn lemma_first_failure_at(probes: Seq<Probe>, i: int)
    requires
        0 <= i < probes.len(),
        probes[i].failure_class is Some,
        forall|k: int| 0 <= k < i ==> (#[trigger] probes[k]).failure_class is None,
    ensures
        first_failure(probes) == probes[i].failure_class,
    decreases i,
{
    if i > 0 {
        assert(probes[0].failure_class is None);
        let rest = probes.drop_first();
        assert forall|k: int| 0 <= k < i - 1 implies (#[trigger] rest[k]).failure_class is None by {
            assert(rest[k] == probes[k + 1]);
        }
        lemma_first_failure_at(rest, i - 1);
    }
}

proof fn lemma_no_failure(probes: Seq<Probe>)
    requires
        forall|i: int| 0 <= i < probes.len() ==> (#[trigger] probes[i]).failure_class is None,
    ensures
        first_failure(probes) is None,
    decreases probes.len(),
{
    if probes.len() > 0 {
        assert(probes[0].failure_class is None);
        let rest = probes.drop_first();
        assert forall|i: int| 0 <= i < rest.len() implies (
        #[trigger] rest[i]).failure_class is None by {
            assert(rest[i] == probes[i + 1]);
        }
        lemma_no_failure(rest);
    }
}

/// How much was counted under a name.
pub open spec fn count_under(counts: Seq<(Seq<char>, int)>, key: Seq<char>) -> int
    decreases counts.len(),
{
    if counts.len() == 0 {
        0
    } else {
        count_under(counts.drop_first(), key) + if counts[0].0 == key {
            counts[0].1
        } else {
            0
        }
    }
}

/// Counting under a name adds to that name and to no other.
pub proof fn counting_adds_under_its_name(
    counts: Seq<(Seq<char>, int)>,
    key: Seq<char>,
    n: int,
    other: Seq<char>,
)
    ensures
        count_under(counted(counts, key, n), key) == count_under(counts, key) + n,
        other != key ==> count_under(counted(counts, key, n), other) == count_under(counts, other),
    decreases counts.len(),
{
    let r = counted(counts, key, n);
    if counts.len() == 0 {
        assert(r =~= seq![(key, n)]);
        assert(r.drop_first() =~= counts);
        assert(count_under(counts, key) == 0 && count_under(counts, other) == 0);
    } else if counts[0].0 == key {
        assert(r =~= seq![(key, counts[0].1 + n)] + counts.drop_first());
        assert(r[0] == (key, counts[0].1 + n));
        assert(r.drop_first() =~= counts.drop_first());
    } else if text::lex_lt(key, counts[0].0) {
        assert(r =~= seq![(key, n)] + counts);
        assert(r[0] == (key, n));
        assert(r.drop_first() =~= counts);
    } else {
        counting_adds_under_its_name(counts.drop_first(), key, n, other);
        assert(r =~= seq![counts[0]] + counted(counts.drop_first(), key, n));
        assert(r[0] == counts[0]);
        assert(r.drop_first() =~= counted(counts.drop_first(), key, n));
    }
    assert(r.len() > 0);
    assert(count_under(r, key) == count_under(r.drop_first(), key) + if r[0].0 == key {
        r[0].1
    } else {
        0
    });
    assert(count_under(r, other) == count_under(r.drop_first(), other) + if r[0].0 == other {
        r[0].1
    } else {
        0
    });
}

/// Under each type as many entries are counted as there are of that type.
pub proof fn types_are_counted(entries: Seq<Json>, kind: Seq<char>)
    ensures
        count_under(type_counts(entries), kind) == entries.filter(
            |e: Json| responses::type_in(e) == Some(kind),
        ).len(),
    decreases entries.len(),
{
    let of_kind = |e: Json| responses::type_in(e) == Some(kind);
    reveal(Seq::filter);
    if entries.len() > 0 {
        let rest = entries.drop_last();
        types_are_counted(rest, kind);
        match responses::type_in(entries.last()) {
            Some(k) => {
                counting_adds_under_its_name(type_counts(rest), k, 1, kind);
            },
            None => {},
        }
    }
}

/// What is kept of all probes counts each type as often as all of them did.
pub proof fn probes_are_counted_together(probes: Seq<Probe>, kind: Seq<char>)
    ensures
        count_under(all_counts(probes), kind) == probes.fold_left(
            0int,
            |n: int, p: Probe| n + count_under(p.segment_type_counts, kind),
        ),
    decreases probes.len(),
{
    if probes.len() > 0 {
        probes_are_counted_together(probes.drop_last(), kind);
        lemma_merged_under(
            all_counts(probes.drop_last()),
            probes.last().segment_type_counts,
            kind,
        );
    }
}

proof fn lemma_under_last(b: Seq<(Seq<char>, int)>, kind: Seq<char>)
    requires
        b.len() > 0,
    ensures
        count_under(b, kind) == count_under(b.drop_last(), kind) + if b.last().0 == kind {
            b.last().1
        } else {
            0
        },
    decreases b.len(),
{
    if b.len() == 1 {
        assert(b.drop_last() =~= Seq::empty());
        assert(b.drop_first() =~= Seq::empty());
    } else {
        lemma_under_last(b.drop_first(), kind);
        assert(b.drop_first().drop_last() =~= b.drop_last().drop_first());
    }
}

proof fn lemma_merged_under(
    a: Seq<(Seq<char>, int)>,
    b: Seq<(Seq<char>, int)>,
    kind: Seq<char>,
)
    ensures
        count_under(merged_counts(a, b), kind) == count_under(a, kind) + count_under(b, kind),
    decreases b.len(),
{
    if b.len() > 0 {
        lemma_merged_under(a, b.drop_last(), kind);
        lemma_under_last(b, kind);
        counting_adds_under_its_name(
            merged_counts(a, b.drop_last()),
            b.last().0,
            b.last().1,
            kind,
        );
    }
}

/// What is kept of a probe: what was probed and how it went, its class of failure, its
/// segments and what it says.
pub proof fn probes_are_kept(p: Probe)
    ensures
        json::json_get(probe_target(p), "media_type"@) == Some(Json::Text(p.media_type)),
        json::json_get(probe_target(p), "status"@) == Some(Json::Text(p.status)),
        json::json_get(media_type_result(p), "failure_class"@) == Some(
            match p.failure_class {
                Some(f) => Json::Text(f),
                None => Json::Null,
            },
        ),
        json::json_get(media_type_result(p), "segment_count"@) == Some(
            Json::Number(JsonNumber::Unsigned(p.segment_count as u64)),
        ),
        json::json_get(media_type_result(p), "status"@) == Some(Json::Text(p.status)),
        json::json_get(media_type_result(p), "summary"@) == Some(Json::Text(p.summary)),
{
    lemma_probe_names_differ();
    json::lemma_lookup_at(probe_target(p)->Object_0, "media_type"@, 0);
    json::lemma_lookup_at(probe_target(p)->Object_0, "status"@, 1);
    json::lemma_lookup_at(media_type_result(p)->Object_0, "failure_class"@, 0);
    json::lemma_lookup_at(media_type_result(p)->Object_0, "segment_count"@, 1);
    json::lemma_lookup_at(media_type_result(p)->Object_0, "status"@, 2);
    json::lemma_lookup_at(media_type_result(p)->Object_0, "summary"@, 3);
}

proof fn lemma_probe_names_differ()
    ensures
        "failure_class"@ != "media_type"@,
        "failure_class"@ != "segment"@,
        "failure_class"@ != "segment_count"@,
        "failure_class"@ != "status"@,
        "failure_class"@ != "summary"@,
        "failure_class"@ != "error"@,
        "media_type"@ != "segment"@,
        "media_type"@ != "segment_count"@,
        "media_type"@ != "status"@,
        "media_type"@ != "summary"@,
        "media_type"@ != "error"@,
        "segment"@ != "segment_count"@,
        "segment"@ != "status"@,
        "segment"@ != "summary"@,
        "segment"@ != "error"@,
        "segment_count"@ != "status"@,
        "segment_count"@ != "summary"@,
        "segment_count"@ != "error"@,
        "status"@ != "summary"@,
        "status"@ != "error"@,
        "summary"@ != "error"@,
{
    reveal_strlit("failure_class");
    reveal_strlit("media_type");
    reveal_strlit("segment");
    reveal_strlit("segment_count");
    reveal_strlit("status");
    reveal_strlit("summary");
    reveal_strlit("error");
    assert("failure_class"@.len() == 13);
    assert("media_type"@.len() == 10);
    assert("segment"@.len() == 7);
    assert("segment_count"@.len() == 13);
    assert("status"@.len() == 6);
    assert("summary"@.len() == 7);
    assert("error"@.len() == 5);
    assert("failure_class"@[0] == 'f');
    assert("segment"@[1] == 'e');
    assert("segment_count"@[0] == 's');
    assert("summary"@[1] == 'u');
}

/// A probe that a faulty entry broke tells the fault and shows the entry; one that could
/// not be made tells the error and its class; one of a provider that serves nothing that
/// can be probed tells so.
pub proof fn broken_probes_tell_why(
    media_type: Seq<char>,
    n: nat,
    fault: Seq<char>,
    entry: Json,
    c: MediaContext,
    message: Seq<char>,
)
    ensures
        ({
            let p = faulty_probe(media_type, n, fault, entry);
            &&& p.media_type == media_type && p.status == "broken"@ && p.failure_class == Some(
                fault,
            ) && p.segment_count == n && p.segment_type_counts.len() == 0
            &&& p.summary == "invalid segment response: "@ + fault
            &&& json::json_get(p.response_evidence, "failure_class"@) == Some(Json::Text(fault))
            &&& json::json_get(p.response_evidence, "media_type"@) == Some(Json::Text(media_type))
            &&& json::json_get(p.response_evidence, "segment"@) == Some(entry)
            &&& json::json_get(p.response_evidence, "status"@) == Some(Json::Text("broken"@))
        }),
        ({
            let p = failed_probe(c, message);
            &&& p.media_type == marketplace::context_media_type(c) && p.status == "broken"@
            &&& p.failure_class == Some(normalize::probe_failure_class(message))
            &&& p.summary == message && p.segment_count == 0
            &&& json::json_get(p.response_evidence, "error"@) == Some(Json::Text(message))
            &&& json::json_get(p.response_evidence, "status"@) == Some(Json::Text("broken"@))
        }),
        unsupported_probe().status == "broken"@,
        unsupported_probe().failure_class == Some("unsupported_scope"@),
        unsupported_probe().media_type == "unknown"@,
        unsupported_probe().summary == "provider scope does not include a certifiable media type"@,
{
    lemma_probe_names_differ();
    let m = faulty_probe(media_type, n, fault, entry).response_evidence->Object_0;
    json::lemma_lookup_at(m, "failure_class"@, 0);
    json::lemma_lookup_at(m, "media_type"@, 1);
    json::lemma_lookup_at(m, "segment"@, 2);
    json::lemma_lookup_at(m, "status"@, 4);
    let f = failed_probe(c, message).response_evidence->Object_0;
    json::lemma_lookup_at(f, "error"@, 0);
    json::lemma_lookup_at(f, "status"@, 2);
}

/// What is said of a certification: how many of its probes were certified, or how many
/// failed.
pub proof fn certifications_are_summed_up(probes: Seq<Probe>)
    ensures
        ({
            let good = probes.filter(|p: Probe| p.status == "certified"@).len();
            &&& certified_count(probes) == good
            &&& certification_summary("certified"@, probes) == text::decimal(good) + "/"@
                + text::decimal(probes.len()) + " probe(s) certified"@
            &&& certification_summary("broken"@, probes) == text::decimal(
                (probes.len() - good) as nat,
            ) + "/"@ + text::decimal(probes.len()) + " probe(s) failed certification"@
        }),
{
    reveal_strlit("certified");
    reveal_strlit("broken");
    assert("certified"@.len() == 9 && "broken"@.len() == 6);
    lemma_certified_filter(probes);
}

proof fn lemma_certified_filter(probes: Seq<Probe>)
    ensures
        certified_count(probes) == probes.filter(|p: Probe| p.status == "certified"@).len(),
    decreases probes.len(),
{
    reveal(Seq::filter);
    if probes.len() > 0 {
        lemma_certified_filter(probes.drop_last());
    }
}

/// What is kept of the probes by media type is what the last probe of each type came to.
pub proof fn last_probes_of_a_type_are_kept(probes: Seq<Probe>, k: int)
    requires
        0 <= k < probes.len(),
        forall|i: int|
            k < i < probes.len() ==> (#[trigger] probes[i]).media_type != probes[k].media_type,
    ensures
        json::lookup(media_type_results(probes), probes[k].media_type) == Some(
            media_type_result(probes[k]),
        ),
    decreases probes.len(),
{
    let rest = probes.drop_last();
    let last = probes.last();
    json::lemma_lookup_with_member(
        media_type_results(rest),
        last.media_type,
        media_type_result(last),
        probes[k].media_type,
    );
    if k < rest.len() {
        assert(probes[probes.len() - 1].media_type != probes[k].media_type);
        assert(rest[k] == probes[k]);
        assert forall|i: int| k < i < rest.len() implies (#[trigger] rest[i]).media_type
            != rest[k].media_type by {
            assert(probes[i].media_type != probes[k].media_type);
        }
        last_probes_of_a_type_are_kept(rest, k);
    }
}

/// What a certified provider goes by: its implementation, which must be well formed.
pub proof fn certified_providers_have_a_kind(s: Selection)
    ensures
        s.implementation is None ==> certified_kind(s) == Err::<Seq<char>, Seq<char>>(
            "media segment provider implementation is missing"@,
        ),
        s.implementation is Some ==> certified_kind(s) == normalize::provider_id_of(
            s.implementation->0,
        ),
        probe_context("movie"@).item_type == "movie"@,
{
}

/// A probed response is read like any other: it has a list just where it is one or names
/// one under segments, results or data, and then the same.
pub proof fn probed_responses_name_their_list(j: Json, list: Seq<Json>)
    ensures
        probed_list(j) is Some ==> responses::segment_array(j) == probed_list(j)->0,
        probed_list(j) is None ==> responses::segment_array(j).len() == 0,
        j == Json::Array(list) ==> probed_list(j) == Some(list),
        json::json_get(j, "segments"@) == Some(Json::Array(list)) ==> probed_list(j) == Some(list),
        json::json_get(j, "segments"@) is None && json::json_get(j, "results"@) == Some(
            Json::Array(list),
        ) ==> probed_list(j) == Some(list),
        json::json_get(j, "segments"@) is None && json::json_get(j, "results"@) is None
            && json::json_get(j, "data"@) == Some(Json::Array(list)) ==> probed_list(j) == Some(
            list,
        ),
{
    let keys = seq!["segments"@, "results"@, "data"@];
    assert(keys.drop_first() =~= seq!["results"@, "data"@]);
    assert(keys.drop_first().drop_first() =~= seq!["data"@]);
    assert(keys.drop_first().drop_first().drop_first() =~= Seq::empty());
    reveal_with_fuel(named_list, 4);
    reveal_with_fuel(responses::first_array, 4);
}

} // verus!
