//! Search results of the TVDB catalogue.

use vstd::prelude::*;
use crate::error::opt_text;
use crate::json::{self, Json, JsonValue};
use crate::metadata::{
    self, find_first_score, trimmed_text, DiscoveryResult, ExternalIds, Found, Ids, MediaType,
};
use crate::number;
use crate::quantity::Quantity;
use crate::reading::{self, as_array, find_first_member};
use crate::text;

verus! {

/// Whether a result is of the kind that was searched for.
pub open spec fn matches_kind(j: Json, media_type: MediaType) -> bool {
    match json::json_get(j, "type"@) {
        Some(Json::Text(s)) => {
            let kind = text::lower_seq(text::trim_seq(s));
            if media_type is Movie {
                text::contains_seq(kind, "movie"@)
            } else {
                text::contains_seq(kind, "series"@) || text::contains_seq(kind, "show"@)
                    || text::contains_seq(kind, "tv"@)
            }
        },
        _ => media_type is Movie ==> match json::json_get(j, "isMovie"@) {
            Some(v) => match json::json_i64(v) {
                Some(n) => n == 1,
                None => true,
            },
            None => true,
        },
    }
}

/// Whether a result is of the kind that was searched for. A result that names
/// no kind counts as a series, and as a film unless it says otherwise.
pub fn tvdb_result_matches_media_type(value: &JsonValue, media_type: MediaType) -> (r: bool)
    ensures
        r == matches_kind(value@, media_type),
{
    let movie = match media_type {
        MediaType::Movie => true,
        _ => false,
    };
    match value.get("type") {
        Some(v) => match v.as_text() {
            Some(s) => {
                let kind = text::to_lower(text::trim(s.as_str()).as_str());
                let k = kind.as_str();
                return if movie {
                    text::contains_str(k, "movie")
                } else {
                    text::contains_str(k, "series") || text::contains_str(k, "show")
                        || text::contains_str(k, "tv")
                };
            },
            None => {},
        },
        None => {},
    }
    if !movie {
        return true;
    }
    match value.get("isMovie") {
        Some(v) => match v.as_i64() {
            Some(n) => n == 1,
            None => true,
        },
        None => true,
    }
}

/// The text of an id: a text that is not empty, or a whole number.
pub open spec fn id_text(j: Json) -> Option<Seq<char>> {
    match j {
        Json::Text(_) => metadata::shown_text(j),
        Json::Number(json::JsonNumber::Unsigned(n)) => Some(text::decimal(n as nat)),
        Json::Number(json::JsonNumber::Negative(n)) => Some(text::decimal_int(n as int)),
        _ => None,
    }
}

/// The text of an id.
pub fn as_string(value: &JsonValue) -> (r: Option<String>)
    ensures
        opt_text(r) == id_text(value@),
{
    match value {
        JsonValue::Text(_) => trimmed_text(value),
        JsonValue::Number(json::JsonNumber::Unsigned(n)) => Some(text::u64_text(*n)),
        JsonValue::Number(json::JsonNumber::Negative(n)) => Some(text::i64_text(*n)),
        _ => None,
    }
}

/// The id under the first of some names that is there.
pub open spec fn id_under(j: Json, keys: Seq<Seq<char>>) -> Option<Seq<char>> {
    match reading::first_member(j, keys) {
        Some(v) => id_text(v),
        None => None,
    }
}

fn find_id(value: &JsonValue, keys: &Vec<&str>) -> (r: Option<String>)
    ensures
        opt_text(r) == id_under(value@, reading::names(keys@)),
{
    match find_first_member(value, keys) {
        Some(v) => as_string(v),
        None => None,
    }
}

pub open spec fn id_names() -> Seq<Seq<char>> {
    seq!["tvdb_id"@, "tvdbId"@, "id"@]
}

/// The id of a result in the catalogue.
pub fn extract_tvdb_id(value: &JsonValue) -> (r: Option<String>)
    ensures
        opt_text(r) == id_under(value@, id_names()),
{
    let keys: Vec<&str> = vec!["tvdb_id", "tvdbId", "id"];
    proof {
        assert(reading::names(keys@) =~= id_names());
    }
    find_id(value, &keys)
}

pub open spec fn title_names() -> Seq<Seq<char>> {
    seq!["name"@, "title"@, "name_translated"@, "seriesName"@, "movieName"@]
}

/// The title of a result, or what was searched for.
pub open spec fn title_in(j: Json, query: Seq<char>) -> Seq<char> {
    match reading::first_member(j, title_names()) {
        Some(v) => match metadata::shown_text(v) {
            Some(s) => s,
            None => query,
        },
        None => query,
    }
}

/// The title of a result, or what was searched for.
pub fn select_title(value: &JsonValue, fallback_query: &str) -> (r: String)
    ensures
        r@ == title_in(value@, fallback_query@),
{
    let keys: Vec<&str> = vec!["name", "title", "name_translated", "seriesName", "movieName"];
    proof {
        assert(reading::names(keys@) =~= title_names());
    }
    match find_first_member(value, &keys) {
        Some(v) => match trimmed_text(v) {
            Some(s) => s,
            None => fallback_query.to_owned(),
        },
        None => fallback_query.to_owned(),
    }
}

/// The ASCII digits of a text, in order.
pub open spec fn digits_in(s: Seq<char>) -> Seq<char>
    decreases s.len(),
{
    if s.len() == 0 {
        s
    } else if '0' <= s.last() <= '9' {
        digits_in(s.drop_last()).push(s.last())
    } else {
        digits_in(s.drop_last())
    }
}

/// The year in a text: its first four digits.
pub open spec fn year_in(s: Seq<char>) -> Option<i32> {
    let digits = digits_in(s);
    if digits.len() < 4 {
        None
    } else {
        Some(number::digits_value(digits.take(4)) as i32)
    }
}

proof fn lemma_four_digits(d: Seq<char>)
    requires
        d.len() == 4,
    ensures
        number::digits_value(d) == number::digit_value(d[0]) * 1000 + number::digit_value(d[1]) * 100
            + number::digit_value(d[2]) * 10 + number::digit_value(d[3]),
{
    reveal_with_fuel(number::digits_value, 5);
    assert(d.drop_last().len() == 3);
    assert(d.drop_last().drop_last().len() == 2);
    assert(d.drop_last().drop_last().drop_last().len() == 1);
    assert(d.drop_last().drop_last().drop_last().drop_last().len() == 0);
}

fn digit_number(c: char) -> (r: i32)
    requires
        '0' <= c <= '9',
    ensures
        r == number::digit_value(c),
        0 <= r <= 9,
{
    (c as u32 - 48) as i32
}

/// The year in a text: its first four digits.
pub fn parse_year_text(value: &str) -> (r: Option<i32>)
    ensures
        r == year_in(value@),
{
    let v = text::chars_of(value);
    let mut digits: Vec<char> = Vec::new();
    let mut i: usize = 0;
    proof {
        assert(digits@ =~= digits_in(v@.take(0)));
    }
    while i < v.len()
        invariant
            i <= v@.len(),
            digits@ == digits_in(v@.take(i as int)),
            forall|j: int| 0 <= j < digits@.len() ==> '0' <= #[trigger] digits@[j] <= '9',
        decreases v@.len() - i,
    {
        proof {
            assert(v@.take(i + 1).drop_last() =~= v@.take(i as int));
            assert(v@.take(i + 1).last() == v@[i as int]);
        }
        let c = v[i];
        if '0' <= c && c <= '9' {
            digits.push(c);
        }
        i += 1;
    }
    proof {
        assert(v@.take(i as int) =~= value@);
    }
    if digits.len() < 4 {
        return None;
    }
    proof {
        lemma_four_digits(digits@.take(4));
    }
    Some(
        digit_number(digits[0]) * 1000 + digit_number(digits[1]) * 100 + digit_number(digits[2]) * 10
            + digit_number(digits[3]),
    )
}

/// The text under a name.
pub open spec fn text_under(j: Json, key: Seq<char>) -> Option<Seq<char>> {
    match json::json_get(j, key) {
        Some(v) => json::json_text(v),
        None => None,
    }
}

fn find_text<'a>(value: &'a JsonValue, key: &str) -> (r: Option<&'a String>)
    ensures
        match r {
            Some(s) => text_under(value@, key@) == Some(s@),
            None => text_under(value@, key@) is None,
        },
{
    match value.get(key) {
        Some(v) => v.as_text(),
        None => None,
    }
}

/// The year under a name, as a whole number.
pub open spec fn whole_year(j: Json, key: Seq<char>) -> Option<i32> {
    match json::json_get(j, key) {
        Some(v) => match json::json_i64(v) {
            Some(n) => Some(n as i32),
            None => None,
        },
        None => None,
    }
}

/// The year under a name, as a whole number.
pub fn find_whole_year(value: &JsonValue, key: &str) -> (r: Option<i32>)
    ensures
        r == whole_year(value@, key@),
{
    match value.get(key) {
        Some(v) => match v.as_i64() {
            Some(n) => Some(
                #[verifier::truncate]
                (n as i32),
            ),
            None => None,
        },
        None => None,
    }
}

/// The year of a result: its year, or that of its first broadcast.
pub open spec fn result_year(j: Json) -> Option<i32> {
    match whole_year(j, "year"@) {
        Some(y) => Some(y),
        None => match text_under(j, "year"@) {
            Some(s) => year_in(s),
            None => match text_under(j, "first_air_time"@) {
                Some(s) => year_in(s),
                None => match text_under(j, "firstAired"@) {
                    Some(s) => year_in(s),
                    None => None,
                },
            },
        },
    }
}

/// The year of a result: its year, or that of its first broadcast.
pub fn extract_year(value: &JsonValue) -> (r: Option<i32>)
    ensures
        r == result_year(value@),
{
    match find_whole_year(value, "year") {
        Some(y) => {
            return Some(y);
        },
        None => {},
    }
    match find_text(value, "year") {
        Some(s) => {
            return parse_year_text(s.as_str());
        },
        None => {},
    }
    match find_text(value, "first_air_time") {
        Some(s) => {
            return parse_year_text(s.as_str());
        },
        None => {},
    }
    match find_text(value, "firstAired") {
        Some(s) => parse_year_text(s.as_str()),
        None => None,
    }
}

pub open spec fn poster_names() -> Seq<Seq<char>> {
    seq!["image_url"@, "image"@, "poster"@, "thumbnail"@]
}

/// The address of a result's poster.
pub fn extract_poster_url(value: &JsonValue) -> (r: Option<String>)
    ensures
        opt_text(r) == id_under(value@, poster_names()),
{
    let keys: Vec<&str> = vec!["image_url", "image", "poster", "thumbnail"];
    proof {
        assert(reading::names(keys@) =~= poster_names());
    }
    find_id(value, &keys)
}

pub open spec fn score_names() -> Seq<Seq<char>> {
    seq!["score"@, "popularity"@, "siteRating"@]
}

/// How popular a result is.
pub fn extract_popularity_score(value: &JsonValue) -> (r: Option<Quantity>)
    ensures
        r == metadata::first_score(value@, score_names()),
{
    let keys: Vec<&str> = vec!["score", "popularity", "siteRating"];
    proof {
        assert(reading::names(keys@) =~= score_names());
    }
    find_first_score(value, &keys)
}

pub open spec fn source_names() -> Seq<Seq<char>> {
    seq!["sourceName"@, "source_name"@, "source"@]
}

/// The catalogue that a remote id belongs to.
pub open spec fn source_of(j: Json) -> Seq<char> {
    match reading::first_member(j, source_names()) {
        Some(Json::Text(s)) => text::lower_seq(text::trim_seq(s)),
        _ => Seq::empty(),
    }
}

fn remote_source(item: &JsonValue) -> (r: String)
    ensures
        r@ == source_of(item@),
{
    let keys: Vec<&str> = vec!["sourceName", "source_name", "source"];
    proof {
        assert(reading::names(keys@) =~= source_names());
    }
    match find_first_member(item, &keys) {
        Some(v) => match v.as_text() {
            Some(s) => text::to_lower(text::trim(s.as_str()).as_str()),
            None => String::new(),
        },
        None => String::new(),
    }
}

/// Whether one of some names stands in `s`.
pub open spec fn names_any(s: Seq<char>, sources: Seq<Seq<char>>) -> bool {
    exists|i: int| 0 <= i < sources.len() && text::contains_seq(s, #[trigger] sources[i])
}

/// The first remote id of one of some catalogues. An entry without an id ends
/// the search.
pub open spec fn remote_id_in(
    items: Seq<Json>,
    sources: Seq<Seq<char>>,
    title_ids: bool,
) -> Option<Seq<char>>
    decreases items.len(),
{
    if items.len() == 0 {
        None
    } else {
        match json::json_get(items[0], "id"@) {
            Some(v) => match id_text(v) {
                Some(id) => if title_ids && text::has_prefix_seq(text::lower_seq(id), "tt"@)
                    || names_any(source_of(items[0]), sources) {
                    Some(id)
                } else {
                    remote_id_in(items.drop_first(), sources, title_ids)
                },
                None => None,
            },
            None => None,
        }
    }
}

pub open spec fn remote_names() -> Seq<Seq<char>> {
    seq!["remote_ids"@, "remoteIds"@]
}

/// The id of a result in one of some other catalogues; where `title_ids`, one
/// that begins with `tt` counts whatever its catalogue.
pub open spec fn remote_id(j: Json, sources: Seq<Seq<char>>, title_ids: bool) -> Option<Seq<char>> {
    match reading::first_member(j, remote_names()) {
        Some(Json::Array(items)) => remote_id_in(items, sources, title_ids),
        _ => None,
    }
}

fn source_is_any(source: &str, sources: &Vec<&str>) -> (r: bool)
    ensures
        r == names_any(source@, reading::names(sources@)),
{
    let ghost all = reading::names(sources@);
    let mut i: usize = 0;
    while i < sources.len()
        invariant
            i <= sources@.len(),
            all == reading::names(sources@),
            forall|j: int| 0 <= j < i ==> !text::contains_seq(source@, #[trigger] all[j]),
        decreases sources@.len() - i,
    {
        if text::contains_str(source, sources[i]) {
            proof {
                assert(text::contains_seq(source@, all[i as int]));
            }
            return true;
        }
        i += 1;
    }
    false
}

/// The id of a result in one of some other catalogues.
pub fn extract_remote_id(value: &JsonValue, sources: &Vec<&str>, allow_prefix_match: bool) -> (r:
    Option<String>)
    ensures
        opt_text(r) == remote_id(value@, reading::names(sources@), allow_prefix_match),
{
    let keys: Vec<&str> = vec!["remote_ids", "remoteIds"];
    proof {
        assert(reading::names(keys@) =~= remote_names());
    }
    let array: &Vec<JsonValue> = match find_first_member(value, &keys) {
        Some(v) => match as_array(v) {
            Some(a) => a,
            None => {
                return None;
            },
        },
        None => {
            return None;
        },
    };
    let ghost all = reading::elements_of(array@);
    let ghost wanted = reading::names(sources@);
    let mut i: usize = 0;
    proof {
        assert(all.skip(0) =~= all);
    }
    while i < array.len()
        invariant
            i <= array@.len(),
            all == reading::elements_of(array@),
            wanted == reading::names(sources@),
            remote_id(value@, wanted, allow_prefix_match) == remote_id_in(
                all,
                wanted,
                allow_prefix_match,
            ),
            remote_id_in(all, wanted, allow_prefix_match) == remote_id_in(
                all.skip(i as int),
                wanted,
                allow_prefix_match,
            ),
        decreases array@.len() - i,
    {
        let item = &array[i];
        proof {
            assert(all.skip(i as int)[0] == item@);
            assert(all.skip(i as int).drop_first() =~= all.skip(i + 1));
        }
        let source = remote_source(item);
        let id = match item.get("id") {
            Some(v) => match as_string(v) {
                Some(id) => id,
                None => {
                    return None;
                },
            },
            None => {
                return None;
            },
        };
        let lower = text::to_lower(id.as_str());
        if allow_prefix_match && text::has_prefix(lower.as_str(), "tt") {
            return Some(id);
        }
        if source_is_any(source.as_str(), sources) {
            return Some(id);
        }
        i += 1;
    }
    None
}

pub open spec fn imdb_sources() -> Seq<Seq<char>> {
    seq!["imdb"@]
}

pub open spec fn tmdb_sources() -> Seq<Seq<char>> {
    seq!["tmdb"@, "themoviedb"@]
}

/// What a result says of a work, where it is of the kind that was searched for
/// and has an id.
pub open spec fn found_in(j: Json, query: Seq<char>, media_type: MediaType) -> Option<Found> {
    if !matches_kind(j, media_type) {
        None
    } else {
        match id_under(j, id_names()) {
            Some(id) => Some(
                Found {
                    title: title_in(j, query),
                    media_type,
                    year: result_year(j),
                    external_ids: Some(
                        Ids {
                            imdb: remote_id(j, imdb_sources(), true),
                            tmdb: remote_id(j, tmdb_sources(), false),
                            tvdb: Some(id),
                            tvdb_series: if media_type is Movie {
                                None
                            } else {
                                Some(id)
                            },
                            tvdb_movie: if media_type is Movie {
                                Some(id)
                            } else {
                                None
                            },
                            anilist: None,
                        },
                    ),
                    description: text_under(j, "overview"@),
                    poster_url: id_under(j, poster_names()),
                    popularity_score: metadata::first_score(j, score_names()),
                },
            ),
            None => None,
        }
    }
}

/// What some results say of works, in their order.
pub open spec fn found_all(items: Seq<Json>, query: Seq<char>, media_type: MediaType) -> Seq<Found>
    decreases items.len(),
{
    if items.len() == 0 {
        Seq::empty()
    } else {
        let before = found_all(items.drop_last(), query, media_type);
        match found_in(items.last(), query, media_type) {
            Some(f) => before.push(f),
            None => before,
        }
    }
}

fn map_search_result(item: &JsonValue, query: &str, media_type: MediaType) -> (r: Option<
    DiscoveryResult,
>)
    ensures
        match r {
            Some(d) => found_in(item@, query@, media_type) == Some(d@),
            None => found_in(item@, query@, media_type) is None,
        },
{
    if !tvdb_result_matches_media_type(item, media_type) {
        return None;
    }
    let id = match extract_tvdb_id(item) {
        Some(id) => id,
        None => {
            return None;
        },
    };
    let imdb: Vec<&str> = vec!["imdb"];
    let tmdb: Vec<&str> = vec!["tmdb", "themoviedb"];
    proof {
        assert(reading::names(imdb@) =~= imdb_sources());
        assert(reading::names(tmdb@) =~= tmdb_sources());
    }
    let (tvdb_series, tvdb_movie): (Option<String>, Option<String>) = match media_type {
        MediaType::Movie => (None, Some(id.clone())),
        _ => (Some(id.clone()), None),
    };
    let description: Option<String> = match find_text(item, "overview") {
        Some(s) => Some(s.clone()),
        None => None,
    };
    Some(
        DiscoveryResult {
            title: select_title(item, query),
            media_type,
            year: extract_year(item),
            external_ids: Some(
                ExternalIds {
                    imdb: extract_remote_id(item, &imdb, true),
                    tmdb: extract_remote_id(item, &tmdb, false),
                    tvdb: Some(id),
                    tvdb_series,
                    tvdb_movie,
                    anilist: None,
                },
            ),
            description,
            poster_url: extract_poster_url(item),
            popularity_score: extract_popularity_score(item),
        },
    )
}

/// The works that some results speak of.
pub fn map_search_results(items: &Vec<JsonValue>, fallback_query: &str, media_type: MediaType) -> (r:
    Vec<DiscoveryResult>)
    ensures
        metadata::founds(r@) == found_all(reading::elements_of(items@), fallback_query@, media_type),
{
    let ghost all = reading::elements_of(items@);
    let mut out: Vec<DiscoveryResult> = Vec::new();
    let mut i: usize = 0;
    proof {
        assert(metadata::founds(out@) =~= Seq::empty());
    }
    while i < items.len()
        invariant
            i <= items@.len(),
            all == reading::elements_of(items@),
            metadata::founds(out@) == found_all(all.take(i as int), fallback_query@, media_type),
        decreases items@.len() - i,
    {
        proof {
            assert(all.take(i + 1).drop_last() =~= all.take(i as int));
            assert(all.take(i + 1).last() == items@[i as int]@);
        }
        let ghost before = metadata::founds(out@);
        match map_search_result(&items[i], fallback_query, media_type) {
            Some(d) => {
                out.push(d);
                proof {
                    assert(metadata::founds(out@) =~= before.push(d@));
                }
            },
            None => {},
        }
        i += 1;
    }
    proof {
        assert(all.take(i as int) =~= all);
    }
    out
}

/// Every work that a search yields is of the kind that was searched for, and
/// has an id in the catalogue that is also its id as a film or as a series.
pub proof fn search_results_are_of_the_kind(
    items: Seq<Json>,
    query: Seq<char>,
    media_type: MediaType,
    k: int,
)
    requires
        0 <= k < found_all(items, query, media_type).len(),
    ensures
        ({
            let f = found_all(items, query, media_type)[k];
            &&& f.media_type == media_type
            &&& f.external_ids is Some
            &&& f.external_ids->0.tvdb is Some
            &&& f.external_ids->0.tvdb->0.len() > 0
            &&& media_type is Movie ==> f.external_ids->0.tvdb_movie == f.external_ids->0.tvdb
            &&& media_type !is Movie ==> f.external_ids->0.tvdb_series == f.external_ids->0.tvdb
        }),
    decreases items.len(),
{
    let before = found_all(items.drop_last(), query, media_type);
    if k < before.len() {
        search_results_are_of_the_kind(items.drop_last(), query, media_type, k);
    } else {
        let id = reading::first_member(items.last(), id_names())->0;
        lemma_id_text_not_empty(id);
    }
}

proof fn lemma_id_text_not_empty(j: Json)
    ensures
        id_text(j) is Some ==> id_text(j)->0.len() > 0,
{
}

/// Whether a result is of the kind that was searched for: by the words of its type where
/// it names one; else it counts as a series, and as a film unless it says it is none.
pub proof fn results_are_told_by_their_type(j: Json)
    ensures
        match json::json_get(j, "type"@) {
            Some(Json::Text(t)) => {
                let kind = text::lower_seq(text::trim_seq(t));
                let shown = text::contains_seq(kind, "series"@) || text::contains_seq(
                    kind,
                    "show"@,
                ) || text::contains_seq(kind, "tv"@);
                &&& matches_kind(j, MediaType::Movie) <==> text::contains_seq(kind, "movie"@)
                &&& matches_kind(j, MediaType::Series) <==> shown
                &&& matches_kind(j, MediaType::Anime) <==> shown
            },
            _ => {
                &&& matches_kind(j, MediaType::Series)
                &&& matches_kind(j, MediaType::Anime)
                &&& json::json_get(j, "isMovie"@) is None ==> matches_kind(j, MediaType::Movie)
                &&& match json::json_get(j, "isMovie"@) {
                    Some(Json::Number(json::JsonNumber::Unsigned(n))) => n < 1_000 ==> (
                    matches_kind(j, MediaType::Movie) <==> n == 1),
                    _ => true,
                }
            },
        },
{
}

/// An id is a text that is not blank, without the white space round it, or a whole
/// number in digits.
pub proof fn ids_are_texts_and_numbers(j: Json)
    ensures
        match j {
            Json::Text(s) => id_text(j) == if text::trim_seq(s).len() > 0 {
                Some(text::trim_seq(s))
            } else {
                None
            },
            Json::Number(json::JsonNumber::Unsigned(n)) => id_text(j) == Some(
                text::decimal(n as nat),
            ),
            Json::Number(json::JsonNumber::Negative(n)) => n < 0 ==> id_text(j) == Some(
                seq!['-'] + text::decimal((-n) as nat),
            ),
            _ => id_text(j) is None,
        },
{
}

proof fn lemma_digits_first(d: Seq<char>, rest: Seq<char>)
    requires
        forall|i: int| 0 <= i < d.len() ==> '0' <= #[trigger] d[i] <= '9',
    ensures
        digits_in(d + rest).len() >= d.len(),
        digits_in(d + rest).take(d.len() as int) == d,
    decreases rest.len(),
{
    let s = d + rest;
    if rest.len() == 0 {
        assert(s =~= d);
        lemma_all_digits(d);
        assert(d.take(d.len() as int) =~= d);
    } else {
        lemma_digits_first(d, rest.drop_last());
        assert(s.drop_last() =~= d + rest.drop_last());
        let before = digits_in(s.drop_last());
        assert(before.push(s.last()).take(d.len() as int) =~= before.take(d.len() as int));
    }
}

proof fn lemma_all_digits(d: Seq<char>)
    requires
        forall|i: int| 0 <= i < d.len() ==> '0' <= #[trigger] d[i] <= '9',
    ensures
        digits_in(d) =~= d,
    decreases d.len(),
{
    if d.len() > 0 {
        assert('0' <= d[d.len() - 1] <= '9');
        assert forall|i: int| 0 <= i < d.drop_last().len() implies '0' <= #[trigger] d.drop_last()[i]
            <= '9' by {
            assert('0' <= d[i] <= '9');
        }
        lemma_all_digits(d.drop_last());
    }
}

/// The year of a date is its first four digits.
pub proof fn years_are_the_first_four_digits(d: Seq<char>, rest: Seq<char>)
    requires
        d.len() == 4,
        forall|i: int| 0 <= i < d.len() ==> '0' <= #[trigger] d[i] <= '9',
    ensures
        year_in(d + rest) == Some(
            ((d[0] as int - '0' as int) * 1_000 + (d[1] as int - '0' as int) * 100 + (d[2] as int
                - '0' as int) * 10 + (d[3] as int - '0' as int)) as i32,
        ),
{
    lemma_digits_first(d, rest);
    assert('0' <= d[0] <= '9' && '0' <= d[1] <= '9' && '0' <= d[2] <= '9' && '0' <= d[3] <= '9');
    let d3 = d.drop_last();
    let d2 = d3.drop_last();
    let d1 = d2.drop_last();
    let d0 = d1.drop_last();
    assert(d3.last() == d[2] && d2.last() == d[1] && d1.last() == d[0]);
    assert(number::digits_value(d0) == 0);
    assert(number::digits_value(d1) == number::digit_value(d[0]));
    assert(number::digits_value(d2) == number::digits_value(d1) * 10 + number::digit_value(d[1]));
    assert(number::digits_value(d3) == number::digits_value(d2) * 10 + number::digit_value(d[2]));
    assert(number::digits_value(d) == number::digits_value(d3) * 10 + number::digit_value(d[3]));
}

/// The year of a result is its year, in digits or as a text, before that of its first
/// broadcast.
pub proof fn results_have_their_year(j: Json, n: u64, t: Seq<char>)
    ensures
        n <= 9_999 && json::json_get(j, "year"@) == Some(
            Json::Number(json::JsonNumber::Unsigned(n)),
        ) ==> result_year(j) == Some(n as i32),
        json::json_get(j, "year"@) == Some(Json::Text(t)) ==> result_year(j) == year_in(t),
        json::json_get(j, "year"@) is None && json::json_get(j, "first_air_time"@) == Some(
            Json::Text(t),
        ) ==> result_year(j) == year_in(t),
        json::json_get(j, "year"@) is None && json::json_get(j, "first_air_time"@) is None
            && json::json_get(j, "firstAired"@) == Some(Json::Text(t)) ==> result_year(j)
            == year_in(t),
{
}

/// The id of a result in another catalogue is the first of its remote ids whose source
/// names that catalogue, or that begins with tt where such count.
pub proof fn first_remote_ids_count(
    items: Seq<Json>,
    sources: Seq<Seq<char>>,
    title_ids: bool,
    k: int,
    id: Seq<char>,
)
    requires
        0 <= k < items.len(),
        json::json_get(items[k], "id"@) is Some,
        id_text(json::json_get(items[k], "id"@)->0) == Some(id),
        (title_ids && text::has_prefix_seq(text::lower_seq(id), "tt"@)) || exists|q: int|
            0 <= q < sources.len() && text::contains_seq(
                source_of(items[k]),
                #[trigger] sources[q],
            ),
        forall|i: int|
            0 <= i < k ==> {
                let own = json::json_get(#[trigger] items[i], "id"@);
                &&& own is Some
                &&& id_text(own->0) is Some
                &&& !(title_ids && text::has_prefix_seq(
                    text::lower_seq(id_text(own->0)->0),
                    "tt"@,
                ))
                &&& forall|q: int|
                    0 <= q < sources.len() ==> !text::contains_seq(
                        source_of(items[i]),
                        #[trigger] sources[q],
                    )
            },
    ensures
        remote_id_in(items, sources, title_ids) == Some(id),
    decreases k,
{
    if k > 0 {
        let rest = items.drop_first();
        let own = json::json_get(items[0], "id"@);
        assert(own is Some && id_text(own->0) is Some);
        assert(!names_any(source_of(items[0]), sources));
        assert forall|i: int| 0 <= i < k - 1 implies {
            let own = json::json_get(#[trigger] rest[i], "id"@);
            &&& own is Some
            &&& id_text(own->0) is Some
            &&& !(title_ids && text::has_prefix_seq(text::lower_seq(id_text(own->0)->0), "tt"@))
            &&& forall|q: int|
                0 <= q < sources.len() ==> !text::contains_seq(
                    source_of(rest[i]),
                    #[trigger] sources[q],
                )
        } by {
            assert(rest[i] == items[i + 1]);
        }
        first_remote_ids_count(rest, sources, title_ids, k - 1, id);
    }
}

/// Every result that is of the kind that was searched for and has an id is found, with
/// that id as a film or as a series, its title or what was searched for, and its year.
pub proof fn results_with_an_id_are_found(
    items: Seq<Json>,
    query: Seq<char>,
    media_type: MediaType,
    k: int,
    id: Seq<char>,
) -> (at: int)
    requires
        0 <= k < items.len(),
        matches_kind(items[k], media_type),
        id_under(items[k], seq!["tvdb_id"@, "tvdbId"@, "id"@]) == Some(id),
    ensures
        ({
            let found = found_all(items, query, media_type);
            &&& 0 <= at < found.len()
            &&& found[at].media_type == media_type
            &&& found[at].title == title_in(items[k], query)
            &&& found[at].year == result_year(items[k])
            &&& found[at].external_ids is Some
            &&& found[at].external_ids->0.tvdb == Some(id)
            &&& media_type is Movie ==> found[at].external_ids->0.tvdb_movie == Some(id)
                && found[at].external_ids->0.tvdb_series is None
            &&& !(media_type is Movie) ==> found[at].external_ids->0.tvdb_series == Some(id)
                && found[at].external_ids->0.tvdb_movie is None
            &&& found[at].external_ids->0.anilist is None
            &&& found[at].external_ids->0.imdb == remote_id(items[k], seq!["imdb"@], true)
            &&& found[at].external_ids->0.tmdb == remote_id(
                items[k],
                seq!["tmdb"@, "themoviedb"@],
                false,
            )
            &&& found[at].description == text_under(items[k], "overview"@)
        }),
    decreases items.len(),
{
    let rest = items.drop_last();
    if k < rest.len() {
        assert(rest[k] == items[k]);
        results_with_an_id_are_found(rest, query, media_type, k, id)
    } else {
        found_all(rest, query, media_type).len() as int
    }
}

/// The title of a result is the text under the first of its names that is there; where
/// that is blank or there is none, what was searched for.
pub proof fn titles_of_results(j: Json, query: Seq<char>)
    ensures
        match json::json_get(j, "name"@) {
            Some(Json::Text(t)) => title_in(j, query) == if text::trim_seq(t).len() > 0 {
                text::trim_seq(t)
            } else {
                query
            },
            Some(_) => title_in(j, query) == query,
            None => match json::json_get(j, "title"@) {
                Some(Json::Text(t)) => title_in(j, query) == if text::trim_seq(t).len() > 0 {
                    text::trim_seq(t)
                } else {
                    query
                },
                Some(_) => title_in(j, query) == query,
                None => true,
            },
        },
{
    let names = title_names();
    assert(names[0] == "name"@ && names[1] == "title"@);
    if json::json_get(j, "name"@) is Some {
        reading::first_member_there_counts(j, names, 0);
    } else if json::json_get(j, "title"@) is Some {
        reading::first_member_there_counts(j, names, 1);
    }
}

/// The members of a result are read under any of their names, where those before it are
/// not there.
pub proof fn results_are_read_under_their_names(j: Json, k: int, v: Json)
    ensures
        ({
            let names = seq!["tvdb_id"@, "tvdbId"@, "id"@];
            0 <= k < names.len() && json::json_get(j, names[k]) == Some(v) && (forall|i: int|
                0 <= i < k ==> json::json_get(j, #[trigger] names[i]) is None) ==> id_under(
                j,
                id_names(),
            ) == id_text(v)
        }),
        ({
            let names = seq![
                "name"@,
                "title"@,
                "name_translated"@,
                "seriesName"@,
                "movieName"@,
            ];
            0 <= k < names.len() && json::json_get(j, names[k]) == Some(v) && (forall|i: int|
                0 <= i < k ==> json::json_get(j, #[trigger] names[i]) is None)
                ==> reading::first_member(j, title_names()) == Some(v)
        }),
        ({
            let names = seq!["image_url"@, "image"@, "poster"@, "thumbnail"@];
            0 <= k < names.len() && json::json_get(j, names[k]) == Some(v) && (forall|i: int|
                0 <= i < k ==> json::json_get(j, #[trigger] names[i]) is None) ==> id_under(
                j,
                poster_names(),
            ) == id_text(v)
        }),
        ({
            let names = seq!["sourceName"@, "source_name"@, "source"@];
            0 <= k < names.len() && json::json_get(j, names[k]) == Some(v) && v is Text && (forall|
                i: int,
            |
                0 <= i < k ==> json::json_get(j, #[trigger] names[i]) is None) ==> source_of(j)
                == text::lower_seq(text::trim_seq(v->Text_0))
        }),
        ({
            let names = seq!["remote_ids"@, "remoteIds"@];
            0 <= k < names.len() && json::json_get(j, names[k]) == Some(v) && v is Array && (forall|
                i: int,
            |
                0 <= i < k ==> json::json_get(j, #[trigger] names[i]) is None) ==> remote_id(
                j,
                imdb_sources(),
                true,
            ) == remote_id_in(v->Array_0, seq!["imdb"@], true)
        }),
{
    lemma_named(j, id_names(), k, v);
    lemma_named(j, title_names(), k, v);
    lemma_named(j, poster_names(), k, v);
    lemma_named(j, source_names(), k, v);
    lemma_named(j, remote_names(), k, v);
}

proof fn lemma_named(j: Json, names: Seq<Seq<char>>, k: int, v: Json)
    ensures
        0 <= k < names.len() && json::json_get(j, names[k]) == Some(v) && (forall|i: int|
            0 <= i < k ==> json::json_get(j, #[trigger] names[i]) is None)
            ==> reading::first_member(j, names) == Some(v),
{
    if 0 <= k < names.len() && json::json_get(j, names[k]) == Some(v) && (forall|i: int|
        0 <= i < k ==> json::json_get(j, #[trigger] names[i]) is None) {
        reading::first_member_there_counts(j, names, k);
    }
}

/// The score of a result is read under any of its names, where those before it are not
/// there.
pub proof fn scores_are_read_under_their_names(j: Json, k: int, n: i64)
    ensures
        ({
            let names = seq!["score"@, "popularity"@, "siteRating"@];
            0 <= k < names.len() && json::json_get(j, names[k]) == Some(
                Json::Number(json::JsonNumber::Fraction(n)),
            ) && (forall|i: int| 0 <= i < k ==> json::json_get(j, #[trigger] names[i]) is None)
                ==> metadata::first_score(j, score_names()) == Some(Quantity::Micros(n))
        }),
{
    let names = score_names();
    if 0 <= k < names.len() && json::json_get(j, names[k]) == Some(
        Json::Number(json::JsonNumber::Fraction(n)),
    ) && (forall|i: int| 0 <= i < k ==> json::json_get(j, #[trigger] names[i]) is None) {
        metadata::first_scores_count(j, names, k, n);
    }
}

} // verus!
