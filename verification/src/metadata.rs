//! Media identities and what the catalogue services know of them.

use vstd::prelude::*;
use crate::error::opt_text;
use crate::json::{self, Json, JsonValue};
use crate::number;
use crate::quantity::Quantity;
use crate::reading;
use crate::text;

verus! {

/// What kind of work an item is.
#[derive(Debug, Clone, Copy, PartialEq, Eq, Structural)]
pub enum MediaType {
    Movie,
    Series,
    Anime,
}

/// The ids of a work in the catalogues.
#[derive(Debug, Clone)]
pub struct ExternalIds {
    pub imdb: Option<String>,
    pub tmdb: Option<String>,
    pub tvdb: Option<String>,
    pub tvdb_series: Option<String>,
    pub tvdb_movie: Option<String>,
    pub anilist: Option<String>,
}

/// What the ids of a work are, as a mathematical value.
#[verifier::ext_equal]
pub ghost struct Ids {
    pub imdb: Option<Seq<char>>,
    pub tmdb: Option<Seq<char>>,
    pub tvdb: Option<Seq<char>>,
    pub tvdb_series: Option<Seq<char>>,
    pub tvdb_movie: Option<Seq<char>>,
    pub anilist: Option<Seq<char>>,
}

impl View for ExternalIds {
    type V = Ids;

    open spec fn view(&self) -> Ids {
        Ids {
            imdb: opt_text(self.imdb),
            tmdb: opt_text(self.tmdb),
            tvdb: opt_text(self.tvdb),
            tvdb_series: opt_text(self.tvdb_series),
            tvdb_movie: opt_text(self.tvdb_movie),
            anilist: opt_text(self.anilist),
        }
    }
}

/// No id at all.
pub open spec fn no_ids() -> Ids {
    Ids { imdb: None, tmdb: None, tvdb: None, tvdb_series: None, tvdb_movie: None, anilist: None }
}

impl ExternalIds {
    /// No id at all.
    pub fn none() -> (r: ExternalIds)
        ensures
            r@ == no_ids(),
    {
        ExternalIds {
            imdb: None,
            tmdb: None,
            tvdb: None,
            tvdb_series: None,
            tvdb_movie: None,
            anilist: None,
        }
    }
}

/// The ids that may be there.
pub open spec fn opt_ids(ids: Option<ExternalIds>) -> Option<Ids> {
    match ids {
        Some(i) => Some(i@),
        None => None,
    }
}

/// A work that a search found.
#[derive(Debug, Clone)]
pub struct DiscoveryResult {
    pub title: String,
    pub media_type: MediaType,
    pub year: Option<i32>,
    pub external_ids: Option<ExternalIds>,
    pub description: Option<String>,
    pub poster_url: Option<String>,
    pub popularity_score: Option<Quantity>,
}

/// What a found work is, as a mathematical value.
#[verifier::ext_equal]
pub ghost struct Found {
    pub title: Seq<char>,
    pub media_type: MediaType,
    pub year: Option<i32>,
    pub external_ids: Option<Ids>,
    pub description: Option<Seq<char>>,
    pub poster_url: Option<Seq<char>>,
    pub popularity_score: Option<Quantity>,
}

impl View for DiscoveryResult {
    type V = Found;

    open spec fn view(&self) -> Found {
        Found {
            title: self.title@,
            media_type: self.media_type,
            year: self.year,
            external_ids: opt_ids(self.external_ids),
            description: opt_text(self.description),
            poster_url: opt_text(self.poster_url),
            popularity_score: self.popularity_score,
        }
    }
}

/// Some found works, as mathematical values.
pub open spec fn founds(v: Seq<DiscoveryResult>) -> Seq<Found> {
    v.map_values(|d: DiscoveryResult| d@)
}

/// The text of a value without the white space around it; an empty text is
/// none.
pub open spec fn shown_text(j: Json) -> Option<Seq<char>> {
    match json::json_text(j) {
        Some(s) => if text::trim_seq(s).len() == 0 {
            None
        } else {
            Some(text::trim_seq(s))
        },
        None => None,
    }
}

/// The text of a value without the white space around it.
pub fn trimmed_text(value: &JsonValue) -> (r: Option<String>)
    ensures
        opt_text(r) == shown_text(value@),
{
    match value.as_text() {
        Some(s) => {
            let t = text::trim(s.as_str());
            proof {
                reveal_strlit("");
                if t@.len() == 0 {
                    assert(t@ =~= ""@);
                }
            }
            if text::str_eq(t.as_str(), "") {
                None
            } else {
                Some(t)
            }
        },
        None => None,
    }
}

/// The score that a value stands for: a number, or the number in a text.
pub open spec fn score_in(j: Json) -> Option<Quantity> {
    match json::json_micros(j) {
        Some(n) => Some(Quantity::Micros(n)),
        None => match json::json_text(j) {
            Some(s) => number::quantity_of(text::trim_seq(s)),
            None => None,
        },
    }
}

/// The first score that stands under one of some names.
pub open spec fn first_score(j: Json, keys: Seq<Seq<char>>) -> Option<Quantity>
    decreases keys.len(),
{
    if keys.len() == 0 {
        None
    } else {
        match json::json_get(j, keys[0]) {
            Some(v) => match score_in(v) {
                Some(q) => Some(q),
                None => first_score(j, keys.drop_first()),
            },
            None => first_score(j, keys.drop_first()),
        }
    }
}

/// The score that a value stands for.
pub fn value_to_score(value: &JsonValue) -> (r: Option<Quantity>)
    ensures
        r == score_in(value@),
{
    match value.as_micros() {
        Some(n) => Some(Quantity::Micros(n)),
        None => match value.as_text() {
            Some(s) => number::parse_quantity(text::trim(s.as_str()).as_str()),
            None => None,
        },
    }
}

/// The first score that stands under one of some names.
pub fn find_first_score(value: &JsonValue, keys: &Vec<&str>) -> (r: Option<Quantity>)
    ensures
        r == first_score(value@, reading::names(keys@)),
{
    let ghost all = reading::names(keys@);
    let mut i: usize = 0;
    proof {
        assert(all.skip(0) =~= all);
    }
    while i < keys.len()
        invariant
            i <= keys@.len(),
            all == reading::names(keys@),
            first_score(value@, all) == first_score(value@, all.skip(i as int)),
        decreases keys@.len() - i,
    {
        proof {
            assert(all.skip(i as int)[0] == keys@[i as int]@);
            assert(all.skip(i as int).drop_first() =~= all.skip(i + 1));
        }
        match value.get(keys[i]) {
            Some(v) => match value_to_score(v) {
                Some(q) => {
                    return Some(q);
                },
                None => {},
            },
            None => {},
        }
        i += 1;
    }
    None
}

/// What a work is known by.
#[derive(Debug, Clone)]
pub struct MediaIdentity {
    pub media_type: MediaType,
    pub title: String,
    pub season: Option<i32>,
    pub external_ids: ExternalIds,
}

/// The genres of a work, where they are known.
pub open spec fn opt_texts(t: Option<Vec<String>>) -> Option<Seq<Seq<char>>> {
    match t {
        Some(v) => Some(number::texts(v@)),
        None => None,
    }
}

/// What a catalogue says of a work.
#[derive(Debug, Clone)]
pub struct MetadataResult {
    pub metadata_json: JsonValue,
    pub runtime_seconds: Option<i32>,
    pub external_ids: Option<ExternalIds>,
    pub description: Option<String>,
    pub genres: Option<Vec<String>>,
}

/// What a catalogue says of a work, as a mathematical value.
#[verifier::ext_equal]
pub ghost struct Known {
    pub metadata_json: Json,
    pub runtime_seconds: Option<i32>,
    pub external_ids: Option<Ids>,
    pub description: Option<Seq<char>>,
    pub genres: Option<Seq<Seq<char>>>,
}

impl View for MetadataResult {
    type V = Known;

    open spec fn view(&self) -> Known {
        Known {
            metadata_json: self.metadata_json@,
            runtime_seconds: self.runtime_seconds,
            external_ids: opt_ids(self.external_ids),
            description: opt_text(self.description),
            genres: opt_texts(self.genres),
        }
    }
}

/// A copy of a text that may be absent.
pub fn dup_text(t: &Option<String>) -> (r: Option<String>)
    ensures
        opt_text(r) == opt_text(*t),
{
    match t {
        Some(s) => Some(s.clone()),
        None => None,
    }
}

/// A copy of genres that may be absent.
pub fn dup_texts(t: &Option<Vec<String>>) -> (r: Option<Vec<String>>)
    ensures
        opt_texts(r) == opt_texts(*t),
{
    let v: &Vec<String> = match t {
        Some(v) => v,
        None => {
            return None;
        },
    };
    let mut out: Vec<String> = Vec::new();
    let mut i: usize = 0;
    while i < v.len()
        invariant
            i <= v@.len(),
            out@.len() == i,
            forall|j: int| 0 <= j < i ==> #[trigger] out@[j]@ == v@[j]@,
        decreases v@.len() - i,
    {
        out.push(v[i].clone());
        i += 1;
    }
    proof {
        assert(number::texts(out@) =~= number::texts(v@));
    }
    Some(out)
}

/// A score counts under the first of its names that is there.
pub proof fn first_scores_count(j: Json, keys: Seq<Seq<char>>, k: int, n: i64)
    requires
        0 <= k < keys.len(),
        json::json_get(j, keys[k]) == Some(Json::Number(json::JsonNumber::Fraction(n))),
        forall|i: int| 0 <= i < k ==> json::json_get(j, #[trigger] keys[i]) is None,
    ensures
        first_score(j, keys) == Some(Quantity::Micros(n)),
    decreases k,
{
    if k > 0 {
        assert(json::json_get(j, keys[0]) is None);
        let rest = keys.drop_first();
        assert forall|i: int| 0 <= i < k - 1 implies json::json_get(
            j,
            #[trigger] rest[i],
        ) is None by {
            assert(rest[i] == keys[i + 1]);
        }
        first_scores_count(j, rest, k - 1, n);
    }
}

/// The text of a value is shown without the white space round it; a blank one is none.
pub proof fn blank_texts_are_none(j: Json)
    ensures
        match j {
            Json::Text(s) => shown_text(j) == if text::trim_seq(s).len() > 0 {
                Some(text::trim_seq(s))
            } else {
                None
            },
            _ => shown_text(j) is None,
        },
        no_ids().imdb is None && no_ids().tmdb is None && no_ids().tvdb is None
            && no_ids().tvdb_series is None && no_ids().tvdb_movie is None && no_ids().anilist
            is None,
{
}

} // verus!
